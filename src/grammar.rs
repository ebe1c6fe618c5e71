//! The grammar: an arena of nodes, built once and then shared read-only.
//!
//! Node 0 is the root. A node refers to others by index; a wrapper's delegate
//! and a parameter name's value node always stand before it in the arena, so
//! following them always ends.
use vstd::prelude::*;
use crate::text::str_eq;
use crate::nodes::{
    CommandNode, FlagParameterNode, HandlerId, NamedParameterNode, Node, NodeFields, NodeId,
    ParameterNameNode, ParameterNodeFields, RootNode, SimpleParameterNode,
    WrapperNode,
};

verus! {

/// One node of a grammar, of any kind.
pub enum GrammarNode {
    Root(RootNode),
    Command(CommandNode),
    Wrapper(WrapperNode),
    ParameterName(ParameterNameNode),
    Flag(FlagParameterNode),
    Named(NamedParameterNode),
    Simple(SimpleParameterNode),
}

/// Why a grammar refused a change.
#[derive(Debug, PartialEq, Eq, Structural)]
pub enum GrammarError {
    /// The node refers to a node that does not exist, already has successors
    /// or parameters of its own, or is a second root.
    InvalidNode,
    /// An identifier names no node of the grammar.
    UnknownNode,
    /// A wrapper's successors are its delegate's; it has none of its own.
    DelegatedSuccessors,
    /// The parent already has a successor with the same name and priority.
    AmbiguousSibling,
    /// The node is not a command.
    NotACommand,
    /// The node is not a parameter.
    NotAParameter,
}

/// The record of any node.
pub open spec fn fields_of(n: GrammarNode) -> NodeFields {
    match n {
        GrammarNode::Root(r) => r.node_fields,
        GrammarNode::Command(c) => c.node_fields,
        GrammarNode::Wrapper(w) => w.node_fields,
        GrammarNode::ParameterName(p) => p.node_fields,
        GrammarNode::Flag(p) => p.parameter_fields.node,
        GrammarNode::Named(p) => p.parameter_fields.node,
        GrammarNode::Simple(p) => p.parameter_fields.node,
    }
}

/// The parameter record of a flag, named or simple parameter.
pub open spec fn param_fields_of(n: GrammarNode) -> Option<ParameterNodeFields> {
    match n {
        GrammarNode::Flag(p) => Some(p.parameter_fields),
        GrammarNode::Named(p) => Some(p.parameter_fields),
        GrammarNode::Simple(p) => Some(p.parameter_fields),
        _ => None,
    }
}

pub open spec fn name_of(g: Seq<GrammarNode>, i: NodeId) -> Seq<char> {
    fields_of(g[i as int]).name@
}

pub open spec fn priority_of(g: Seq<GrammarNode>, i: NodeId) -> i32 {
    fields_of(g[i as int]).priority
}

pub open spec fn hidden_of(g: Seq<GrammarNode>, i: NodeId) -> bool {
    fields_of(g[i as int]).hidden
}

pub open spec fn is_command(g: Seq<GrammarNode>, i: NodeId) -> bool {
    g[i as int] is Command
}

/// Flag, named and simple parameters.
pub open spec fn is_parameter(g: Seq<GrammarNode>, i: NodeId) -> bool {
    param_fields_of(g[i as int]).is_some()
}

/// Value positions: matched by any non-empty token, completed by help symbol.
pub open spec fn is_value(g: Seq<GrammarNode>, i: NodeId) -> bool {
    g[i as int] is Named || g[i as int] is Simple
}

pub open spec fn required_of(g: Seq<GrammarNode>, i: NodeId) -> bool {
    match param_fields_of(g[i as int]) {
        Some(p) => p.required,
        None => false,
    }
}

/// A node that may be matched at most once on a line: a parameter or a
/// parameter name that is not repeatable.
pub open spec fn once_only(g: Seq<GrammarNode>, i: NodeId) -> bool {
    match g[i as int] {
        GrammarNode::ParameterName(p) => !p.repeatable_fields.repeatable,
        GrammarNode::Flag(p) => !p.parameter_fields.repeatable.repeatable,
        GrammarNode::Named(p) => !p.parameter_fields.repeatable.repeatable,
        GrammarNode::Simple(p) => !p.parameter_fields.repeatable.repeatable,
        _ => false,
    }
}

/// The declared parameters of a command (empty for other nodes).
pub open spec fn params_of(g: Seq<GrammarNode>, i: NodeId) -> Seq<NodeId> {
    match g[i as int] {
        GrammarNode::Command(c) => c.parameters@,
        _ => Seq::empty(),
    }
}

pub open spec fn handler_of(g: Seq<GrammarNode>, i: NodeId) -> Option<HandlerId> {
    match g[i as int] {
        GrammarNode::Command(c) => c.handler,
        _ => None,
    }
}

/// The successors of a node: a wrapper's are those of its delegate, resolved
/// anew on every query.
pub open spec fn successors_of(g: Seq<GrammarNode>, i: NodeId) -> Seq<NodeId>
    decreases i,
{
    match g[i as int] {
        GrammarNode::Wrapper(w) => if w.delegate < i {
            successors_of(g, w.delegate)
        } else {
            Seq::empty()
        },
        _ => fields_of(g[i as int]).successors@,
    }
}

/// `<name>` for a parameter, `<name>...` when it is repeatable.
pub open spec fn bracketed(name: Seq<char>, repeatable: bool) -> Seq<char> {
    seq!['<'] + name + if repeatable {
        seq!['>', '.', '.', '.']
    } else {
        seq!['>']
    }
}

/// The text that identifies a node in help: the name, bracketed for a
/// parameter, followed by the value's symbol for a parameter name.
pub open spec fn help_symbol_of(g: Seq<GrammarNode>, i: NodeId) -> Seq<char>
    decreases i,
{
    match g[i as int] {
        GrammarNode::ParameterName(p) => if p.parameter < i {
            p.node_fields.name@ + seq![' '] + help_symbol_of(g, p.parameter)
        } else {
            p.node_fields.name@
        },
        _ => match param_fields_of(g[i as int]) {
            Some(p) => bracketed(p.node.name@, p.repeatable.repeatable),
            None => fields_of(g[i as int]).name@,
        },
    }
}

/// What a node may hold when it joins a grammar of `len` nodes: no root, no
/// successors or parameters yet, and references only to nodes already there.
pub open spec fn fits(n: GrammarNode, len: nat) -> bool {
    &&& fields_of(n).successors@.len() == 0
    &&& match n {
        GrammarNode::Root(_) => false,
        GrammarNode::Command(c) => c.parameters@.len() == 0,
        GrammarNode::Wrapper(w) => w.delegate < len,
        GrammarNode::ParameterName(p) => p.parameter < len && (
        p.repeatable_fields.repeat_marker matches Some(m) ==> m < len),
        _ => param_fields_of(n) matches Some(p) && (p.repeatable.repeat_marker matches Some(m)
            ==> m < len),
    }
}

/// Well-formedness of a grammar.
pub open spec fn wf(g: Seq<GrammarNode>) -> bool {
    &&& g.len() > 0
    &&& g[0] is Root
    &&& forall|i: int, k: int|
        0 <= i < g.len() && 0 <= k < fields_of(g[i]).successors@.len() ==> #[trigger] fields_of(
            g[i],
        ).successors@[k] < g.len()
    &&& forall|i: int|
        0 < i < g.len() ==> match #[trigger] g[i] {
            GrammarNode::Root(_) => false,
            GrammarNode::Wrapper(w) => w.delegate < i,
            GrammarNode::ParameterName(p) => p.parameter < i,
            _ => true,
        }
    &&& forall|i: int, k: int|
        0 <= i < g.len() && g[i] is Command && 0 <= k < params_of(g, i as NodeId).len()
            ==> #[trigger] params_of(g, i as NodeId)[k] < g.len() && is_parameter(
            g,
            params_of(g, i as NodeId)[k],
        )
}

/// The node `n` with its own successors replaced by `s`, all else kept.
pub open spec fn with_successors(n: GrammarNode, s: Vec<NodeId>) -> GrammarNode {
    match n {
        GrammarNode::Root(r) => GrammarNode::Root(
            RootNode { node_fields: NodeFields { successors: s, ..r.node_fields } },
        ),
        GrammarNode::Command(c) => GrammarNode::Command(
            CommandNode { node_fields: NodeFields { successors: s, ..c.node_fields }, ..c },
        ),
        GrammarNode::Wrapper(w) => GrammarNode::Wrapper(
            WrapperNode { node_fields: NodeFields { successors: s, ..w.node_fields }, ..w },
        ),
        GrammarNode::ParameterName(p) => GrammarNode::ParameterName(
            ParameterNameNode { node_fields: NodeFields { successors: s, ..p.node_fields }, ..p },
        ),
        GrammarNode::Flag(p) => GrammarNode::Flag(
            FlagParameterNode {
                parameter_fields: ParameterNodeFields {
                    node: NodeFields { successors: s, ..p.parameter_fields.node },
                    ..p.parameter_fields
                },
            },
        ),
        GrammarNode::Named(p) => GrammarNode::Named(
            NamedParameterNode {
                parameter_fields: ParameterNodeFields {
                    node: NodeFields { successors: s, ..p.parameter_fields.node },
                    ..p.parameter_fields
                },
            },
        ),
        GrammarNode::Simple(p) => GrammarNode::Simple(
            SimpleParameterNode {
                parameter_fields: ParameterNodeFields {
                    node: NodeFields { successors: s, ..p.parameter_fields.node },
                    ..p.parameter_fields
                },
            },
        ),
    }
}

/// The command `n` with its declared parameters replaced by `ps`, all else kept.
pub open spec fn with_parameters(n: GrammarNode, ps: Vec<NodeId>) -> GrammarNode {
    match n {
        GrammarNode::Command(c) => GrammarNode::Command(CommandNode { parameters: ps, ..c }),
        _ => n,
    }
}

impl GrammarNode {
    /// Append `c` to this node's own successors.
    fn push_successor(&mut self, c: NodeId)
        ensures
            fields_of(*final(self)).successors@ == fields_of(*old(self)).successors@.push(c),
            *final(self) == with_successors(*old(self), fields_of(*final(self)).successors),
    {
        match self {
            GrammarNode::Root(r) => r.node_fields.successors.push(c),
            GrammarNode::Command(x) => x.node_fields.successors.push(c),
            GrammarNode::Wrapper(x) => x.node_fields.successors.push(c),
            GrammarNode::ParameterName(x) => x.node_fields.successors.push(c),
            GrammarNode::Flag(x) => x.parameter_fields.node.successors.push(c),
            GrammarNode::Named(x) => x.parameter_fields.node.successors.push(c),
            GrammarNode::Simple(x) => x.parameter_fields.node.successors.push(c),
        }
    }
}

impl Node for GrammarNode {
    open spec fn spec_fields(&self) -> NodeFields {
        fields_of(*self)
    }

    open spec fn spec_help(&self) -> Option<String> {
        match *self {
            GrammarNode::Root(_) => None,
            GrammarNode::Command(x) => x.help,
            GrammarNode::Wrapper(x) => x.help,
            GrammarNode::ParameterName(x) => x.help,
            GrammarNode::Flag(x) => x.parameter_fields.help,
            GrammarNode::Named(x) => x.parameter_fields.help,
            GrammarNode::Simple(x) => x.parameter_fields.help,
        }
    }

    fn node_data(&self) -> (r: &NodeFields) {
        match self {
            GrammarNode::Root(x) => x.node_data(),
            GrammarNode::Command(x) => x.node_data(),
            GrammarNode::Wrapper(x) => x.node_data(),
            GrammarNode::ParameterName(x) => x.node_data(),
            GrammarNode::Flag(x) => &x.parameter_fields.node,
            GrammarNode::Named(x) => &x.parameter_fields.node,
            GrammarNode::Simple(x) => &x.parameter_fields.node,
        }
    }

    fn help_text(&self) -> (r: &Option<String>) {
        match self {
            GrammarNode::Root(x) => x.help_text(),
            GrammarNode::Command(x) => x.help_text(),
            GrammarNode::Wrapper(x) => x.help_text(),
            GrammarNode::ParameterName(x) => x.help_text(),
            GrammarNode::Flag(x) => &x.parameter_fields.help,
            GrammarNode::Named(x) => &x.parameter_fields.help,
            GrammarNode::Simple(x) => &x.parameter_fields.help,
        }
    }
}

/// A grammar: nodes in an arena, the root at index 0.
pub struct Grammar {
    nodes: Vec<GrammarNode>,
}

impl View for Grammar {
    type V = Seq<GrammarNode>;

    closed spec fn view(&self) -> Seq<GrammarNode> {
        self.nodes@
    }
}

impl Grammar {
    /// A grammar holding only its root.
    pub fn new() -> (g: Grammar)
        ensures
            wf(g@),
            g@.len() == 1,
            g@[0] matches GrammarNode::Root(r) && r.node_fields.name@ == "__root__"@
                && !r.node_fields.hidden && r.node_fields.successors@.len() == 0,
    {
        let mut nodes: Vec<GrammarNode> = Vec::new();
        nodes.push(GrammarNode::Root(RootNode::new()));
        Grammar { nodes }
    }

    /// The root node's identifier.
    pub fn root(&self) -> (r: NodeId)
        ensures
            r == 0,
    {
        0
    }

    /// The number of nodes.
    pub fn len(&self) -> (r: usize)
        ensures
            r == self@.len(),
    {
        self.nodes.len()
    }

    /// The node with identifier `id`.
    pub fn node(&self, id: NodeId) -> (r: &GrammarNode)
        requires
            id < self@.len(),
        ensures
            *r == self@[id as int],
    {
        &self.nodes[id]
    }

    /// Add a node, with no successors yet; its identifier is returned.
    pub fn add_node(&mut self, node: GrammarNode) -> (r: Result<NodeId, GrammarError>)
        requires
            wf(old(self)@),
            old(self)@.len() < usize::MAX,
        ensures
            wf(final(self)@),
            fits(node, old(self)@.len()) ==> r == Ok::<NodeId, GrammarError>(old(self)@.len() as NodeId)
                && final(self)@ == old(self)@.push(node),
            !fits(node, old(self)@.len()) ==> r == Err::<NodeId, GrammarError>(GrammarError::InvalidNode)
                && final(self)@ == old(self)@,
    {
        let len = self.nodes.len();
        let ok = node.node_data().successors.len() == 0 && match &node {
            GrammarNode::Root(_) => false,
            GrammarNode::Command(c) => c.parameters.len() == 0,
            GrammarNode::Wrapper(w) => w.delegate < len,
            GrammarNode::ParameterName(p) => p.parameter < len && match p.repeatable_fields.repeat_marker {
                Some(m) => m < len,
                None => true,
            },
            GrammarNode::Flag(p) => match p.parameter_fields.repeatable.repeat_marker {
                Some(m) => m < len,
                None => true,
            },
            GrammarNode::Named(p) => match p.parameter_fields.repeatable.repeat_marker {
                Some(m) => m < len,
                None => true,
            },
            GrammarNode::Simple(p) => match p.parameter_fields.repeatable.repeat_marker {
                Some(m) => m < len,
                None => true,
            },
        };
        if !ok {
            return Err(GrammarError::InvalidNode);
        }
        self.nodes.push(node);
        proof {
            let g = self.nodes@;
            assert forall|i: int| 0 < i < g.len() implies match #[trigger] g[i] {
                GrammarNode::Root(_) => false,
                GrammarNode::Wrapper(w) => w.delegate < i,
                GrammarNode::ParameterName(p) => p.parameter < i,
                _ => true,
            } by {
                if i < len {
                    assert(g[i] == old(self)@[i]);
                }
            }
            assert forall|i: int, k: int|
                0 <= i < g.len() && g[i] is Command && 0 <= k < params_of(g, i as NodeId).len()
                implies #[trigger] params_of(g, i as NodeId)[k] < g.len() && is_parameter(
                g,
                params_of(g, i as NodeId)[k],
            ) by {
                assert(g[i] == old(self)@[i]);
                assert(params_of(g, i as NodeId) == params_of(old(self)@, i as NodeId));
                assert(g[params_of(g, i as NodeId)[k] as int] == old(self)@[params_of(g, i as NodeId)[k] as int]);
            }
            assert forall|i: int, k: int|
                0 <= i < g.len() && 0 <= k < fields_of(g[i]).successors@.len() implies #[trigger] fields_of(
                g[i],
            ).successors@[k] < g.len() by {
                assert(g[i] == old(self)@[i]);
            }
        }
        Ok(len)
    }

    /// Add `child` to the successors of `parent`. A sibling with the same name
    /// and priority would make some input ambiguous for good, so it is refused.
    pub fn add_successor(&mut self, parent: NodeId, child: NodeId) -> (r: Result<(), GrammarError>)
        requires
            wf(old(self)@),
        ensures
            wf(final(self)@),
            r is Ok <==> (parent < old(self)@.len() && child < old(self)@.len() && !(old(
                self,
            )@[parent as int] is Wrapper) && !sibling_clash(old(self)@, parent, child)),
            r is Ok ==> fields_of(final(self)@[parent as int]).successors@ == fields_of(
                old(self)@[parent as int],
            ).successors@.push(child) && final(self)@ == old(self)@.update(
                parent as int,
                with_successors(
                    old(self)@[parent as int],
                    fields_of(final(self)@[parent as int]).successors,
                ),
            ),
            r is Err ==> final(self)@ == old(self)@,
            r == Err::<(), GrammarError>(GrammarError::UnknownNode) <==> (parent >= old(self)@.len()
                || child >= old(self)@.len()),
            r == Err::<(), GrammarError>(GrammarError::DelegatedSuccessors) <==> (parent < old(
                self,
            )@.len() && child < old(self)@.len() && old(self)@[parent as int] is Wrapper),
            r == Err::<(), GrammarError>(GrammarError::AmbiguousSibling) <==> (parent < old(
                self,
            )@.len() && child < old(self)@.len() && !(old(self)@[parent as int] is Wrapper)
                && sibling_clash(old(self)@, parent, child)),
    {
        let len = self.nodes.len();
        if parent >= len || child >= len {
            return Err(GrammarError::UnknownNode);
        }
        if let GrammarNode::Wrapper(_) = &self.nodes[parent] {
            return Err(GrammarError::DelegatedSuccessors);
        }
        let ghost g = self.nodes@;
        let siblings = self.nodes[parent].successors();
        let cname = self.nodes[child].name();
        let cprio = self.nodes[child].priority();
        let mut k: usize = 0;
        while k < siblings.len()
            invariant
                g == self.nodes@,
                wf(g),
                parent < g.len(),
                child < g.len(),
                !(g[parent as int] is Wrapper),
                siblings@ == fields_of(g[parent as int]).successors@,
                cname@ == name_of(g, child),
                cprio == priority_of(g, child),
                k <= siblings@.len(),
                forall|j: int| 0 <= j < k ==> !same_key(g, #[trigger] siblings@[j], child),
            decreases siblings@.len() - k,
        {
            let s = siblings[k];
            if self.nodes[s].priority() == cprio && str_eq(self.nodes[s].name().as_str(), cname.as_str()) {
                assert(same_key(g, fields_of(g[parent as int]).successors@[k as int], child));
                return Err(GrammarError::AmbiguousSibling);
            }
            k = k + 1;
        }
        let mut n = self.nodes.remove(parent);
        n.push_successor(child);
        self.nodes.insert(parent, n);
        proof {
            let h = self.nodes@;
            assert(h =~= g.update(parent as int, n));
            assert forall|i: int, k: int|
                0 <= i < h.len() && 0 <= k < fields_of(h[i]).successors@.len() implies #[trigger] fields_of(
                h[i],
            ).successors@[k] < h.len() by {
                if i != parent {
                    assert(h[i] == g[i]);
                } else if k < fields_of(g[i]).successors@.len() {
                    assert(fields_of(h[i]).successors@[k] == fields_of(g[i]).successors@[k]);
                }
            }
            assert forall|i: int| 0 < i < h.len() implies match #[trigger] h[i] {
                GrammarNode::Root(_) => false,
                GrammarNode::Wrapper(w) => w.delegate < i,
                GrammarNode::ParameterName(p) => p.parameter < i,
                _ => true,
            } by {
                assert(g[i] == g[i]);
            }
            assert forall|i: int, k: int|
                0 <= i < h.len() && h[i] is Command && 0 <= k < params_of(h, i as NodeId).len()
                implies #[trigger] params_of(h, i as NodeId)[k] < h.len() && is_parameter(
                h,
                params_of(h, i as NodeId)[k],
            ) by {
                assert(g[i] is Command);
                assert(params_of(h, i as NodeId) == params_of(g, i as NodeId));
                let q = params_of(g, i as NodeId)[k];
                assert(is_parameter(g, q));
                assert(is_parameter(h, q));
            }
        }
        Ok(())
    }

    /// Declare `param` as a parameter of `command`, for the required-ness check.
    pub fn declare_parameter(&mut self, command: NodeId, param: NodeId) -> (r: Result<(), GrammarError>)
        requires
            wf(old(self)@),
        ensures
            wf(final(self)@),
            r is Ok <==> (command < old(self)@.len() && param < old(self)@.len() && is_command(
                old(self)@,
                command,
            ) && is_parameter(old(self)@, param)),
            r is Ok ==> params_of(final(self)@, command) == params_of(old(self)@, command).push(param)
                && final(self)@ == old(self)@.update(
                command as int,
                with_parameters(old(self)@[command as int], final(self)@[command as int]->Command_0.parameters),
            ),
            r is Err ==> final(self)@ == old(self)@,
            r == Err::<(), GrammarError>(GrammarError::UnknownNode) <==> (command >= old(self)@.len()
                || param >= old(self)@.len()),
            r == Err::<(), GrammarError>(GrammarError::NotACommand) <==> (command < old(
                self,
            )@.len() && param < old(self)@.len() && !is_command(old(self)@, command)),
            r == Err::<(), GrammarError>(GrammarError::NotAParameter) <==> (command < old(
                self,
            )@.len() && param < old(self)@.len() && is_command(old(self)@, command)
                && !is_parameter(old(self)@, param)),
    {
        let len = self.nodes.len();
        if command >= len || param >= len {
            return Err(GrammarError::UnknownNode);
        }
        if !matches!(&self.nodes[command], GrammarNode::Command(_)) {
            return Err(GrammarError::NotACommand);
        }
        match &self.nodes[param] {
            GrammarNode::Flag(_) | GrammarNode::Named(_) | GrammarNode::Simple(_) => {},
            _ => {
                return Err(GrammarError::NotAParameter);
            },
        }
        let ghost g = self.nodes@;
        let n = self.nodes.remove(command);
        match n {
            GrammarNode::Command(mut c) => {
                c.parameters.push(param);
                self.nodes.insert(command, GrammarNode::Command(c));
            },
            _ => {
                self.nodes.insert(command, n);
            },
        }
        proof {
            let h = self.nodes@;
            assert(h =~= g.update(command as int, h[command as int]));
            assert(h[command as int] is Command);
            assert forall|i: int, k: int|
                0 <= i < h.len() && 0 <= k < fields_of(h[i]).successors@.len() implies #[trigger] fields_of(
                h[i],
            ).successors@[k] < h.len() by {
                assert(fields_of(h[i]) == fields_of(g[i]));
            }
            assert forall|i: int| 0 < i < h.len() implies match #[trigger] h[i] {
                GrammarNode::Root(_) => false,
                GrammarNode::Wrapper(w) => w.delegate < i,
                GrammarNode::ParameterName(p) => p.parameter < i,
                _ => true,
            } by {
                assert(g[i] == g[i]);
            }
            assert forall|i: int, k: int|
                0 <= i < h.len() && h[i] is Command && 0 <= k < params_of(h, i as NodeId).len()
                implies #[trigger] params_of(h, i as NodeId)[k] < h.len() && is_parameter(
                h,
                params_of(h, i as NodeId)[k],
            ) by {
                assert(g[i] is Command);
                let q = params_of(h, i as NodeId)[k];
                if i != command || k < params_of(g, i as NodeId).len() {
                    assert(q == params_of(g, i as NodeId)[k]);
                }
                assert(is_parameter(g, q));
                assert(is_parameter(h, q));
            }
        }
        Ok(())
    }

    /// The successors of node `id`; for a wrapper, those of its delegate now.
    pub fn successors(&self, id: NodeId) -> (r: &Vec<NodeId>)
        requires
            wf(self@),
            id < self@.len(),
        ensures
            r@ == successors_of(self@, id),
            forall|k: int| 0 <= k < r@.len() ==> r@[k] < self@.len(),
    {
        let mut cur = id;
        while matches!(&self.nodes[cur], GrammarNode::Wrapper(_))
            invariant
                wf(self@),
                cur < self@.len(),
                successors_of(self@, cur) == successors_of(self@, id),
            decreases cur,
        {
            cur = match &self.nodes[cur] {
                GrammarNode::Wrapper(w) => w.delegate,
                _ => cur,
            };
        }
        let r = self.nodes[cur].successors();
        assert forall|k: int| 0 <= k < r@.len() implies r@[k] < self@.len() by {
            assert(fields_of(self@[cur as int]).successors@[k] < self@.len());
        }
        r
    }

    /// The help symbol of node `id`.
    pub fn help_symbol(&self, id: NodeId) -> (r: String)
        requires
            wf(self@),
            id < self@.len(),
        ensures
            r@ == help_symbol_of(self@, id),
        decreases id,
    {
        match &self.nodes[id] {
            GrammarNode::ParameterName(p) => {
                let mut s = p.node_fields.name.clone();
                s.append(" ");
                let v = self.help_symbol(p.parameter);
                s.append(v.as_str());
                proof {
                    reveal_strlit(" ");
                }
                assert(s@ =~= help_symbol_of(self@, id));
                s
            },
            GrammarNode::Flag(p) => bracket(&p.parameter_fields),
            GrammarNode::Named(p) => bracket(&p.parameter_fields),
            GrammarNode::Simple(p) => bracket(&p.parameter_fields),
            GrammarNode::Root(x) => x.node_fields.name.clone(),
            GrammarNode::Command(x) => x.node_fields.name.clone(),
            GrammarNode::Wrapper(x) => x.node_fields.name.clone(),
        }
    }

    /// The help text of node `id`.
    pub fn help_text(&self, id: NodeId) -> (r: &Option<String>)
        requires
            id < self@.len(),
        ensures
            *r == self@[id as int].spec_help(),
    {
        self.nodes[id].help_text()
    }
}

/// `<name>` or `<name>...` for a parameter record.
fn bracket(p: &ParameterNodeFields) -> (r: String)
    ensures
        r@ == bracketed(p.node.name@, p.repeatable.repeatable),
{
    let mut s = String::from_str("<");
    s.append(p.node.name.as_str());
    if p.repeatable.repeatable {
        s.append(">...");
    } else {
        s.append(">");
    }
    proof {
        reveal_strlit("<");
        reveal_strlit(">...");
        reveal_strlit(">");
    }
    assert(s@ =~= bracketed(p.node.name@, p.repeatable.repeatable));
    s
}

/// Two nodes compete for the same input: equal name and equal priority.
pub open spec fn same_key(g: Seq<GrammarNode>, a: NodeId, b: NodeId) -> bool {
    name_of(g, a) == name_of(g, b) && priority_of(g, a) == priority_of(g, b)
}

/// `child` would clash with one of the successors that `parent` already has.
pub open spec fn sibling_clash(g: Seq<GrammarNode>, parent: NodeId, child: NodeId) -> bool {
    exists|j: int|
        0 <= j < fields_of(g[parent as int]).successors@.len() && same_key(
            g,
            #[trigger] fields_of(g[parent as int]).successors@[j],
            child,
        )
}

} // verus!
