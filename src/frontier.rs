//! The parse frontier: the state of one input line, and the matcher,
//! completer and acceptor that work on it.
use vstd::prelude::*;
use crate::grammar::{
    Grammar, GrammarNode, wf, successors_of, name_of, priority_of, hidden_of, is_command,
    is_parameter, is_value, once_only, params_of, required_of, handler_of, help_symbol_of,
};
use crate::text::{lex_le, str_eq, starts_with, str_lex_le, lemma_lex_total, lemma_lex_trans};
use crate::nodes::{HandlerId, Node, NodeId, ParameterNode};

verus! {

/// A parameter bound on the line, with the value it was given.
#[derive(Debug)]
pub struct Binding {
    pub parameter: NodeId,
    pub value: String,
}

/// Why a token was rejected.
#[derive(Debug)]
pub enum AdvanceError {
    /// The token matches nothing reachable.
    NoMatch(String),
    /// Two or more reachable nodes match at the top priority: their names.
    Ambiguous(Vec<String>),
}

/// Why a line was not accepted.
#[derive(Debug)]
pub enum AcceptError {
    /// The line ended before any command was reached.
    IncompleteCommand,
    /// Required parameters of the command were not given: their help symbols.
    MissingRequiredParameter(Vec<String>),
}

/// A line accepted: the command's handler and the parameters bound on it.
#[derive(Debug)]
pub struct Accepted {
    pub command: NodeId,
    pub handler: Option<HandlerId>,
    pub bindings: Vec<Binding>,
}

/// The state of one input line.
pub struct Frontier {
    /// The node most recently matched; the root at first.
    pub current: NodeId,
    /// The command most recently matched.
    pub command: Option<NodeId>,
    /// The once-only nodes matched since the command.
    pub visited: Vec<NodeId>,
    /// The declared parameters of the command matched since it.
    pub satisfied: Vec<NodeId>,
    /// The parameters matched since the command, with their values.
    pub bindings: Vec<Binding>,
}

pub open spec fn binding_view(b: Binding) -> (NodeId, Seq<char>) {
    (b.parameter, b.value@)
}

pub open spec fn bindings_view(bs: Seq<Binding>) -> Seq<(NodeId, Seq<char>)> {
    bs.map_values(|b: Binding| binding_view(b))
}

/// A node may still be matched: it is not a once-only node already used.
pub open spec fn live(g: Seq<GrammarNode>, visited: Seq<NodeId>, i: NodeId) -> bool {
    !(once_only(g, i) && visited.contains(i))
}

/// A value position takes any non-empty token; any other node its exact name.
pub open spec fn token_matches(g: Seq<GrammarNode>, i: NodeId, tok: Seq<char>) -> bool {
    if is_value(g, i) {
        tok.len() > 0
    } else {
        tok == name_of(g, i)
    }
}

/// The successors of the current node that are live and match the token.
pub open spec fn candidates(
    g: Seq<GrammarNode>,
    current: NodeId,
    visited: Seq<NodeId>,
    tok: Seq<char>,
) -> Seq<NodeId> {
    successors_of(g, current).filter(|i: NodeId| live(g, visited, i) && token_matches(g, i, tok))
}

/// The highest priority among `c`, or the lowest `i32` when `c` is empty.
pub open spec fn top(g: Seq<GrammarNode>, c: Seq<NodeId>) -> i32
    decreases c.len(),
{
    if c.len() == 0 {
        i32::MIN
    } else {
        let m = top(g, c.drop_last());
        let p = priority_of(g, c.last());
        if p > m {
            p
        } else {
            m
        }
    }
}

/// The nodes of `c` that have the top priority.
pub open spec fn winners(g: Seq<GrammarNode>, c: Seq<NodeId>) -> Seq<NodeId> {
    c.filter(|i: NodeId| priority_of(g, i) == top(g, c))
}

/// The value bound to a parameter matched by `tok`: a flag's is `true`.
pub open spec fn bound_value(g: Seq<GrammarNode>, w: NodeId, tok: Seq<char>) -> Seq<char> {
    if g[w as int] is Flag {
        "true"@
    } else {
        tok
    }
}

/// The frontier refers only to nodes of `g`.
pub open spec fn frontier_wf(g: Seq<GrammarNode>, f: Frontier) -> bool {
    &&& f.current < g.len()
    &&& f.command matches Some(c) ==> c < g.len() && is_command(g, c)
}

/// `b` is `a` after matching node `w` with token `tok`.
pub open spec fn stepped(
    g: Seq<GrammarNode>,
    a: Frontier,
    b: Frontier,
    w: NodeId,
    tok: Seq<char>,
) -> bool {
    &&& b.current == w
    &&& if is_command(g, w) {
        &&& b.command == Some(w)
        &&& b.visited@ == Seq::<NodeId>::empty()
        &&& b.satisfied@ == Seq::<NodeId>::empty()
        &&& b.bindings@.len() == 0
    } else {
        &&& b.command == a.command
        &&& b.visited@ == if once_only(g, w) {
            a.visited@.push(w)
        } else {
            a.visited@
        }
        &&& b.satisfied@ == if a.command matches Some(c) && params_of(g, c).contains(w) {
            a.satisfied@.push(w)
        } else {
            a.satisfied@
        }
        &&& bindings_view(b.bindings@) == if is_parameter(g, w) {
            bindings_view(a.bindings@).push((w, bound_value(g, w, tok)))
        } else {
            bindings_view(a.bindings@)
        }
    }
}

pub open spec fn strings_view(ns: Seq<String>) -> Seq<Seq<char>> {
    ns.map_values(|s: String| s@)
}

pub open spec fn names_of(g: Seq<GrammarNode>, w: Seq<NodeId>) -> Seq<Seq<char>> {
    w.map_values(|i: NodeId| name_of(g, i))
}

/// The required declared parameters of command `c` not yet satisfied, in order.
pub open spec fn missing(g: Seq<GrammarNode>, c: NodeId, satisfied: Seq<NodeId>) -> Seq<NodeId> {
    params_of(g, c).filter(|p: NodeId| required_of(g, p) && !satisfied.contains(p))
}

pub open spec fn symbols_of(g: Seq<GrammarNode>, s: Seq<NodeId>) -> Seq<Seq<char>> {
    s.map_values(|i: NodeId| help_symbol_of(g, i))
}

/// A completion offered: the node, its help symbol and its help text.
#[derive(Debug)]
pub struct Completion {
    pub node: NodeId,
    pub symbol: String,
    pub help: Option<String>,
}

/// What a partial token is held against: the help symbol of a value
/// position, the name of any other node.
pub open spec fn completion_key(g: Seq<GrammarNode>, i: NodeId) -> Seq<char> {
    if is_value(g, i) {
        help_symbol_of(g, i)
    } else {
        name_of(g, i)
    }
}

/// Node `i` is offered for `partial`: visible, live, and its key starts with it.
pub open spec fn offered(g: Seq<GrammarNode>, visited: Seq<NodeId>, partial: Seq<char>, i: NodeId) -> bool {
    &&& !hidden_of(g, i)
    &&& live(g, visited, i)
    &&& partial.is_prefix_of(completion_key(g, i))
}

/// Completion order: higher priority first, then names in dictionary order.
pub open spec fn precedes(g: Seq<GrammarNode>, a: NodeId, b: NodeId) -> bool {
    priority_of(g, a) > priority_of(g, b) || (priority_of(g, a) == priority_of(g, b) && lex_le(
        name_of(g, a),
        name_of(g, b),
    ))
}

/// `c` is the completion for its node: its help symbol and help text.
pub open spec fn completion_of(g: Seq<GrammarNode>, c: Completion) -> bool {
    &&& c.node < g.len()
    &&& c.symbol@ == help_symbol_of(g, c.node)
    &&& c.help == g[c.node as int].spec_help()
}

pub open spec fn nodes_of(r: Seq<Completion>) -> Seq<NodeId> {
    r.map_values(|c: Completion| c.node)
}

proof fn lemma_precedes_total(g: Seq<GrammarNode>, a: NodeId, b: NodeId)
    ensures
        precedes(g, a, b) || precedes(g, b, a),
{
    lemma_lex_total(name_of(g, a), name_of(g, b));
}

proof fn lemma_precedes_trans(g: Seq<GrammarNode>, a: NodeId, b: NodeId, c: NodeId)
    requires
        precedes(g, a, b),
        precedes(g, b, c),
    ensures
        precedes(g, a, c),
{
    if priority_of(g, a) == priority_of(g, b) && priority_of(g, b) == priority_of(g, c) {
        lemma_lex_trans(name_of(g, a), name_of(g, b), name_of(g, c));
    }
}

/// Whether node `a` comes no later than node `b` among completions.
fn node_precedes(g: &Grammar, a: NodeId, b: NodeId) -> (r: bool)
    requires
        a < g@.len(),
        b < g@.len(),
    ensures
        r == precedes(g@, a, b),
{
    let pa = g.node(a).priority();
    let pb = g.node(b).priority();
    pa > pb || (pa == pb && str_lex_le(g.node(a).name().as_str(), g.node(b).name().as_str()))
}

/// One step of a filter over a growing prefix.
proof fn lemma_filter_step(s: Seq<NodeId>, k: int, p: spec_fn(NodeId) -> bool)
    requires
        0 <= k < s.len(),
    ensures
        s.subrange(0, k + 1).filter(p) == if p(s[k]) {
            s.subrange(0, k).filter(p).push(s[k])
        } else {
            s.subrange(0, k).filter(p)
        },
{
    reveal(Seq::filter);
    assert(s.subrange(0, k + 1).drop_last() =~= s.subrange(0, k));
}

/// Whether `x` is an element of `v`.
pub fn vec_contains(v: &Vec<NodeId>, x: NodeId) -> (r: bool)
    ensures
        r == v@.contains(x),
{
    let mut k: usize = 0;
    while k < v.len()
        invariant
            k <= v@.len(),
            forall|j: int| 0 <= j < k ==> v@[j] != x,
        decreases v@.len() - k,
    {
        if v[k] == x {
            return true;
        }
        k = k + 1;
    }
    false
}

impl Frontier {
    /// A fresh frontier for a new line, at the root.
    pub fn new(g: &Grammar) -> (f: Frontier)
        requires
            wf(g@),
        ensures
            frontier_wf(g@, f),
            f.current == 0,
            f.command.is_none(),
            f.visited@.len() == 0,
            f.satisfied@.len() == 0,
            f.bindings@.len() == 0,
    {
        Frontier {
            current: g.root(),
            command: None,
            visited: Vec::new(),
            satisfied: Vec::new(),
            bindings: Vec::new(),
        }
    }

    /// The successors of the current node that are live and match `token`.
    fn matching(&self, g: &Grammar, token: &str) -> (r: Vec<NodeId>)
        requires
            wf(g@),
            frontier_wf(g@, *self),
        ensures
            r@ == candidates(g@, self.current, self.visited@, token@),
            forall|k: int| 0 <= k < r@.len() ==> r@[k] < g@.len(),
    {
        let succ = g.successors(self.current);
        let ghost p = |i: NodeId| live(g@, self.visited@, i) && token_matches(g@, i, token@);
        let tlen = token.unicode_len();
        let mut r: Vec<NodeId> = Vec::new();
        let mut k: usize = 0;
        while k < succ.len()
            invariant
                wf(g@),
                succ@ == successors_of(g@, self.current),
                forall|j: int| 0 <= j < succ@.len() ==> succ@[j] < g@.len(),
                tlen == token@.len(),
                p == (|i: NodeId| live(g@, self.visited@, i) && token_matches(g@, i, token@)),
                k <= succ@.len(),
                r@ == succ@.subrange(0, k as int).filter(p),
                forall|j: int| 0 <= j < r@.len() ==> r@[j] < g@.len(),
            decreases succ@.len() - k,
        {
            let i = succ[k];
            let node = g.node(i);
            let is_val = match node {
                GrammarNode::Named(_) | GrammarNode::Simple(_) => true,
                _ => false,
            };
            let hit = if is_val {
                tlen > 0
            } else {
                str_eq(token, node.name().as_str())
            };
            let alive = self.is_live(g, i);
            proof {
                lemma_filter_step(succ@, k as int, p);
                assert(is_val == is_value(g@, i));
                assert(hit == token_matches(g@, i, token@));
                assert((alive && hit) == p(i));
            }
            if alive && hit {
                r.push(i);
            }
            k = k + 1;
        }
        assert(succ@.subrange(0, succ@.len() as int) =~= succ@);
        r
    }

    /// Consume one completed token: among the live successors of the current
    /// node that match it, the single one of highest priority is taken.
    pub fn advance(&mut self, g: &Grammar, token: &str) -> (r: Result<NodeId, AdvanceError>)
        requires
            wf(g@),
            frontier_wf(g@, *old(self)),
        ensures
            frontier_wf(g@, *final(self)),
            winners(g@, candidates(g@, old(self).current, old(self).visited@, token@)).len() == 0
                ==> (r matches Err(AdvanceError::NoMatch(t)) && t@ == token@),
            winners(g@, candidates(g@, old(self).current, old(self).visited@, token@)).len() > 1
                ==> (r matches Err(AdvanceError::Ambiguous(ns)) && strings_view(ns@) == names_of(
                g@,
                winners(g@, candidates(g@, old(self).current, old(self).visited@, token@)),
            )),
            winners(g@, candidates(g@, old(self).current, old(self).visited@, token@)).len() == 1
                ==> r == Ok::<NodeId, AdvanceError>(
                winners(g@, candidates(g@, old(self).current, old(self).visited@, token@))[0],
            ) && stepped(g@, *old(self), *final(self), r->Ok_0, token@),
            r is Err ==> *final(self) == *old(self),
    {
        let cands = self.matching(g, token);
        let ghost c = cands@;
        let mut m: i32 = i32::MIN;
        let mut k: usize = 0;
        while k < cands.len()
            invariant
                wf(g@),
                c == cands@,
                forall|j: int| 0 <= j < c.len() ==> c[j] < g@.len(),
                k <= c.len(),
                m == top(g@, c.subrange(0, k as int)),
            decreases c.len() - k,
        {
            assert(c.subrange(0, k + 1).drop_last() =~= c.subrange(0, k as int));
            let p = g.node(cands[k]).priority();
            if p > m {
                m = p;
            }
            k = k + 1;
        }
        assert(c.subrange(0, c.len() as int) =~= c);
        let ghost q = |i: NodeId| priority_of(g@, i) == top(g@, c);
        let mut win: Vec<NodeId> = Vec::new();
        let mut names: Vec<String> = Vec::new();
        k = 0;
        while k < cands.len()
            invariant
                wf(g@),
                c == cands@,
                forall|j: int| 0 <= j < c.len() ==> c[j] < g@.len(),
                k <= c.len(),
                m == top(g@, c),
                q == (|i: NodeId| priority_of(g@, i) == top(g@, c)),
                win@ == c.subrange(0, k as int).filter(q),
                strings_view(names@) == names_of(g@, win@),
                names@.len() == win@.len(),
                forall|j: int| 0 <= j < win@.len() ==> win@[j] < g@.len(),
            decreases c.len() - k,
        {
            proof {
                lemma_filter_step(c, k as int, q);
            }
            let i = cands[k];
            let node = g.node(i);
            if node.priority() == m {
                let nm = node.name().clone();
                assert(nm@ == name_of(g@, i));
                let ghost (w0, n0) = (win@, names@);
                win.push(i);
                names.push(nm);
                assert forall|j: int| 0 <= j < win@.len() implies strings_view(names@)[j] == names_of(g@, win@)[j] by {
                    if j < w0.len() {
                        assert(strings_view(n0)[j] == names_of(g@, w0)[j]);
                    }
                }
                assert(strings_view(names@) =~= names_of(g@, win@));
            }
            k = k + 1;
        }
        assert(c.subrange(0, c.len() as int) =~= c);
        assert(win@ == winners(g@, c));
        if win.len() == 0 {
            return Err(AdvanceError::NoMatch(String::from_str(token)));
        }
        if win.len() > 1 {
            return Err(AdvanceError::Ambiguous(names));
        }
        let w = win[0];
        let ghost before = *self;
        let node = g.node(w);
        if let GrammarNode::Command(_) = node {
            self.current = w;
            self.command = Some(w);
            self.visited = Vec::new();
            self.satisfied = Vec::new();
            self.bindings = Vec::new();
            return Ok(w);
        }
        let once = match node {
            GrammarNode::ParameterName(x) => !x.repeatable_fields.repeatable,
            GrammarNode::Flag(x) => !x.parameter_fields.repeatable.repeatable,
            GrammarNode::Named(x) => !x.parameter_fields.repeatable.repeatable,
            GrammarNode::Simple(x) => !x.parameter_fields.repeatable.repeatable,
            _ => false,
        };
        if once {
            self.visited.push(w);
        }
        if let Some(cmd) = self.command {
            if let GrammarNode::Command(cn) = g.node(cmd) {
                if vec_contains(cn.parameters(), w) {
                    self.satisfied.push(w);
                }
            }
        }
        let value = match node {
            GrammarNode::Flag(_) => Some(String::from_str("true")),
            GrammarNode::Named(_) | GrammarNode::Simple(_) => Some(String::from_str(token)),
            _ => None,
        };
        if let Some(v) = value {
            self.bindings.push(Binding { parameter: w, value: v });
            assert(bindings_view(self.bindings@) =~= bindings_view(before.bindings@).push(
                (w, bound_value(g@, w, token@)),
            ));
        }
        self.current = w;
        Ok(w)
    }
    /// End of line: the command reached, if every required parameter it
    /// declares was matched.
    pub fn accept(self, g: &Grammar) -> (r: Result<Accepted, AcceptError>)
        requires
            wf(g@),
            frontier_wf(g@, self),
        ensures
            self.command is None ==> (r matches Err(AcceptError::IncompleteCommand)),
            self.command is Some && missing(g@, self.command->Some_0, self.satisfied@).len() > 0
                ==> (r matches Err(AcceptError::MissingRequiredParameter(syms)) && strings_view(
                syms@,
            ) == symbols_of(g@, missing(g@, self.command->Some_0, self.satisfied@))),
            self.command is Some && missing(g@, self.command->Some_0, self.satisfied@).len() == 0
                ==> (r matches Ok(a) && a.command == self.command->Some_0 && a.handler
                == handler_of(g@, self.command->Some_0) && a.bindings == self.bindings),
    {
        let c = match self.command {
            Some(c) => c,
            None => {
                return Err(AcceptError::IncompleteCommand);
            },
        };
        let params = match g.node(c) {
            GrammarNode::Command(cn) => cn.parameters(),
            _ => {
                return Err(AcceptError::IncompleteCommand);
            },
        };
        let ghost ps = params@;
        let ghost q = |p: NodeId| required_of(g@, p) && !self.satisfied@.contains(p);
        let mut miss: Vec<NodeId> = Vec::new();
        let mut syms: Vec<String> = Vec::new();
        let mut k: usize = 0;
        while k < params.len()
            invariant
                wf(g@),
                c < g@.len(),
                is_command(g@, c),
                ps == params@,
                ps == params_of(g@, c),
                q == (|p: NodeId| required_of(g@, p) && !self.satisfied@.contains(p)),
                k <= ps.len(),
                miss@ == ps.subrange(0, k as int).filter(q),
                syms@.len() == miss@.len(),
                strings_view(syms@) == symbols_of(g@, miss@),
            decreases ps.len() - k,
        {
            proof {
                lemma_filter_step(ps, k as int, q);
            }
            let p = params[k];
            assert(params_of(g@, (c as int) as NodeId)[k as int] == p);
            assert(p < g@.len());
            let req = match g.node(p) {
                GrammarNode::Flag(x) => x.required(),
                GrammarNode::Named(x) => x.required(),
                GrammarNode::Simple(x) => x.required(),
                _ => false,
            };
            if req && !vec_contains(&self.satisfied, p) {
                let sym = g.help_symbol(p);
                let ghost (m0, s0) = (miss@, syms@);
                miss.push(p);
                syms.push(sym);
                assert forall|j: int| 0 <= j < miss@.len() implies strings_view(syms@)[j]
                    == symbols_of(g@, miss@)[j] by {
                    if j < m0.len() {
                        assert(strings_view(s0)[j] == symbols_of(g@, m0)[j]);
                    }
                }
                assert(strings_view(syms@) =~= symbols_of(g@, miss@));
            }
            k = k + 1;
        }
        assert(ps.subrange(0, ps.len() as int) =~= ps);
        if miss.len() > 0 {
            return Err(AcceptError::MissingRequiredParameter(syms));
        }
        let handler = match g.node(c) {
            GrammarNode::Command(cn) => cn.handler(),
            _ => None,
        };
        Ok(Accepted { command: c, handler, bindings: self.bindings })
    }
    /// Whether node `i` may still be matched on this line.
    fn is_live(&self, g: &Grammar, i: NodeId) -> (r: bool)
        requires
            i < g@.len(),
        ensures
            r == live(g@, self.visited@, i),
    {
        let once = match g.node(i) {
            GrammarNode::ParameterName(x) => !x.repeatable_fields.repeatable,
            GrammarNode::Flag(x) => !x.parameter_fields.repeatable.repeatable,
            GrammarNode::Named(x) => !x.parameter_fields.repeatable.repeatable,
            GrammarNode::Simple(x) => !x.parameter_fields.repeatable.repeatable,
            _ => false,
        };
        !(once && vec_contains(&self.visited, i))
    }

    /// The successors of the current node offered for `partial`, each once.
    fn offered_nodes(&self, g: &Grammar, partial: &str) -> (r: Vec<NodeId>)
        requires
            wf(g@),
            frontier_wf(g@, *self),
        ensures
            r@.no_duplicates(),
            forall|x: NodeId|
                r@.contains(x) <==> (successors_of(g@, self.current).contains(x) && offered(
                    g@,
                    self.visited@,
                    partial@,
                    x,
                )),
            forall|k: int| 0 <= k < r@.len() ==> r@[k] < g@.len(),
    {
        let succ = g.successors(self.current);
        let mut pool: Vec<NodeId> = Vec::new();
        let mut k: usize = 0;
        while k < succ.len()
            invariant
                wf(g@),
                succ@ == successors_of(g@, self.current),
                forall|j: int| 0 <= j < succ@.len() ==> succ@[j] < g@.len(),
                k <= succ@.len(),
                pool@.no_duplicates(),
                forall|x: NodeId|
                    pool@.contains(x) <==> (succ@.subrange(0, k as int).contains(x) && offered(
                        g@,
                        self.visited@,
                        partial@,
                        x,
                    )),
                forall|j: int| 0 <= j < pool@.len() ==> pool@[j] < g@.len(),
            decreases succ@.len() - k,
        {
            let i = succ[k];
            let node = g.node(i);
            let is_val = match node {
                GrammarNode::Named(_) | GrammarNode::Simple(_) => true,
                _ => false,
            };
            let fits = if is_val {
                let sym = g.help_symbol(i);
                starts_with(sym.as_str(), partial)
            } else {
                starts_with(node.name().as_str(), partial)
            };
            assert(is_val == is_value(g@, i));
            let ok = !node.hidden() && self.is_live(g, i) && fits;
            assert(ok == offered(g@, self.visited@, partial@, i));
            let ghost prev_pool = pool@;
            let present = vec_contains(&pool, i);
            if ok && !present {
                pool.push(i);
            }
            assert forall|x: NodeId|
                pool@.contains(x) <==> (succ@.subrange(0, k + 1).contains(x) && offered(
                    g@,
                    self.visited@,
                    partial@,
                    x,
                )) by {
                let s0 = succ@.subrange(0, k as int);
                let s1 = succ@.subrange(0, k + 1);
                assert(s1 =~= s0.push(i));
                assert(s1[k as int] == i);
                if s1.contains(x) {
                    let j = choose|j: int| 0 <= j < s1.len() && s1[j] == x;
                    if j < k {
                        assert(s0[j] == x);
                    }
                }
                if s0.contains(x) {
                    let j = choose|j: int| 0 <= j < s0.len() && s0[j] == x;
                    assert(s1[j] == x);
                }
                if pool@.contains(x) && x != i {
                    let j = choose|j: int| 0 <= j < pool@.len() && pool@[j] == x;
                    assert(prev_pool[j] == x);
                }
                if prev_pool.contains(x) {
                    let j = choose|j: int| 0 <= j < prev_pool.len() && prev_pool[j] == x;
                    assert(pool@[j] == x);
                }
                if x == i && ok {
                    if present {
                        let j = choose|j: int| 0 <= j < prev_pool.len() && prev_pool[j] == i;
                        assert(pool@[j] == i);
                    } else {
                        assert(pool@[pool@.len() - 1] == i);
                    }
                }
            }
            k = k + 1;
        }
        assert(succ@.subrange(0, succ@.len() as int) =~= succ@);
        pool
    }

    /// Completions of `partial`: the visible, live successors of the current
    /// node whose key starts with it, by priority (highest first) and then by
    /// name, each node once. An empty result is no error.
    pub fn complete(&self, g: &Grammar, partial: &str) -> (r: Vec<Completion>)
        requires
            wf(g@),
            frontier_wf(g@, *self),
        ensures
            nodes_of(r@).no_duplicates(),
            forall|x: NodeId|
                nodes_of(r@).contains(x) <==> (successors_of(g@, self.current).contains(x)
                    && offered(g@, self.visited@, partial@, x)),
            forall|j: int, k: int|
                0 <= j < k < r@.len() ==> precedes(g@, #[trigger] r@[j].node, #[trigger] r@[k].node),
            forall|j: int|
                0 <= j < r@.len() ==> #[trigger] completion_of(g@, r@[j]),
    {
        let mut pool = self.offered_nodes(g, partial);
        let ghost target = pool@;
        let mut out: Vec<NodeId> = Vec::new();
        while pool.len() > 0
            invariant
                wf(g@),
                out@.no_duplicates(),
                pool@.no_duplicates(),
                forall|x: NodeId| !(out@.contains(x) && pool@.contains(x)),
                forall|x: NodeId| (out@.contains(x) || pool@.contains(x)) <==> target.contains(x),
                forall|j: int, k: int|
                    0 <= j < k < out@.len() ==> precedes(g@, #[trigger] out@[j], #[trigger] out@[k]),
                forall|j: int, y: NodeId|
                    0 <= j < out@.len() && pool@.contains(y) ==> #[trigger] precedes(g@, out@[j], y),
                forall|j: int| 0 <= j < pool@.len() ==> pool@[j] < g@.len(),
                forall|j: int| 0 <= j < out@.len() ==> out@[j] < g@.len(),
            decreases pool@.len(),
        {
            let mut b: usize = 0;
            let mut k: usize = 1;
            proof {
                lemma_precedes_total(g@, pool@[0], pool@[0]);
            }
            while k < pool.len()
                invariant
                    wf(g@),
                    forall|j: int| 0 <= j < pool@.len() ==> pool@[j] < g@.len(),
                    b < k <= pool@.len(),
                    forall|j: int| 0 <= j < k ==> precedes(g@, pool@[b as int], #[trigger] pool@[j]),
                decreases pool@.len() - k,
            {
                if !node_precedes(g, pool[b], pool[k]) {
                    proof {
                        lemma_precedes_total(g@, pool@[b as int], pool@[k as int]);
                        assert forall|j: int| 0 <= j < k + 1 implies precedes(
                            g@,
                            pool@[k as int],
                            #[trigger] pool@[j],
                        ) by {
                            if j < k {
                                lemma_precedes_trans(g@, pool@[k as int], pool@[b as int], pool@[j]);
                            } else {
                                lemma_precedes_total(g@, pool@[k as int], pool@[k as int]);
                            }
                        }
                    }
                    b = k;
                }
                k = k + 1;
            }
            let ghost (prev_pool, prev_out) = (pool@, out@);
            let x = pool.remove(b);
            out.push(x);
            proof {
                assert forall|y: NodeId| pool@.contains(y) implies prev_pool.contains(y) && y != x by {
                    let j = choose|j: int| 0 <= j < pool@.len() && pool@[j] == y;
                    if j < b {
                        assert(prev_pool[j] == y);
                    } else {
                        assert(prev_pool[j + 1] == y);
                    }
                }
                assert forall|y: NodeId| prev_pool.contains(y) && y != x implies pool@.contains(y) by {
                    let j = choose|j: int| 0 <= j < prev_pool.len() && prev_pool[j] == y;
                    if j < b {
                        assert(pool@[j] == y);
                    } else {
                        assert(pool@[j - 1] == y);
                    }
                }
                assert forall|y: NodeId| out@.contains(y) <==> (prev_out.contains(y) || y == x) by {
                    if out@.contains(y) && y != x {
                        let j = choose|j: int| 0 <= j < out@.len() && out@[j] == y;
                        assert(prev_out[j] == y);
                    }
                    if prev_out.contains(y) {
                        let j = choose|j: int| 0 <= j < prev_out.len() && prev_out[j] == y;
                        assert(out@[j] == y);
                    }
                    assert(out@[out@.len() - 1] == x);
                }
                assert(prev_pool[b as int] == x);
                assert(prev_pool.contains(x));
                assert forall|y: NodeId| !(out@.contains(y) && pool@.contains(y)) by {
                    if out@.contains(y) && pool@.contains(y) {
                        assert(prev_pool.contains(y) && y != x);
                        assert(prev_out.contains(y));
                    }
                }
                assert forall|y: NodeId| (out@.contains(y) || pool@.contains(y)) <==> target.contains(y) by {
                    if y == x {
                        assert(out@.contains(y));
                    }
                    if prev_pool.contains(y) && y != x {
                        assert(pool@.contains(y));
                    }
                }
                assert forall|j: int, y: NodeId|
                    0 <= j < out@.len() && pool@.contains(y) implies #[trigger] precedes(g@, out@[j], y) by {
                    if j < prev_out.len() {
                        assert(out@[j] == prev_out[j]);
                    } else {
                        let i = choose|i: int| 0 <= i < prev_pool.len() && prev_pool[i] == y;
                    }
                }
                assert forall|j: int, k: int|
                    0 <= j < k < out@.len() implies precedes(g@, #[trigger] out@[j], #[trigger] out@[k]) by {
                    if k < prev_out.len() {
                        assert(out@[j] == prev_out[j] && out@[k] == prev_out[k]);
                    } else {
                        assert(out@[j] == prev_out[j]);
                    }
                }
                assert forall|i: int, j: int| 0 <= i < j < out@.len() implies out@[i] != out@[j] by {
                    if j < prev_out.len() {
                        assert(out@[i] == prev_out[i] && out@[j] == prev_out[j]);
                    } else {
                        assert(prev_out.contains(out@[i]));
                    }
                }
            }
        }
        let mut r: Vec<Completion> = Vec::new();
        let mut k: usize = 0;
        while k < out.len()
            invariant
                wf(g@),
                forall|j: int| 0 <= j < out@.len() ==> out@[j] < g@.len(),
                k <= out@.len(),
                r@.len() == k,
                forall|j: int| 0 <= j < k ==> #[trigger] r@[j].node == out@[j],
                forall|j: int|
                    0 <= j < k ==> #[trigger] r@[j].symbol@ == help_symbol_of(g@, r@[j].node) && r@[j].help
                        == g@[r@[j].node as int].spec_help(),
            decreases out@.len() - k,
        {
            let i = out[k];
            let help = match g.help_text(i) {
                Some(h) => Some(h.clone()),
                None => None,
            };
            r.push(Completion { node: i, symbol: g.help_symbol(i), help });
            k = k + 1;
        }
        assert(nodes_of(r@) =~= out@);
        assert forall|j: int| 0 <= j < r@.len() implies #[trigger] completion_of(g@, r@[j]) by {
            assert(r@[j].node == out@[j]);
        }
        assert forall|x: NodeId|
            nodes_of(r@).contains(x) <==> (successors_of(g@, self.current).contains(x) && offered(
                g@,
                self.visited@,
                partial@,
                x,
            )) by {
            if pool@.contains(x) {
                let j = choose|j: int| 0 <= j < pool@.len() && pool@[j] == x;
            }
            assert(out@.contains(x) <==> target.contains(x));
        }
        r
    }
}

} // verus!
