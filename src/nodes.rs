//! Grammar nodes: the kinds of node that make up a command tree.
//!
//! Nodes refer to one another by [`NodeId`], an index into the arena of a
//! [`crate::grammar::Grammar`]. Two nodes are the same node exactly when they
//! have the same identifier, whatever their fields hold.
use vstd::prelude::*;

verus! {

/// Identifier of a node: its index in the grammar's arena.
pub type NodeId = usize;

/// Identifier of a command handler, opaque to the grammar.
pub type HandlerId = u64;

/// Minimum priority: a node with it never wins a tie.
pub const PRIORITY_MINIMUM: i32 = -10000;

/// The default priority for a parameter.
pub const PRIORITY_PARAMETER: i32 = -10;

/// The default priority.
pub const PRIORITY_DEFAULT: i32 = 0;

/// The record that every node carries.
pub struct NodeFields {
    /// Possible successor nodes, in the order they were added.
    pub successors: Vec<NodeId>,
    /// The name of this node.
    pub name: String,
    /// Match and complete priority.
    pub priority: i32,
    /// Hidden nodes are not completed. This does not change matching.
    pub hidden: bool,
}

impl NodeFields {
    /// Fields of a node with no successors yet.
    pub fn new(name: &str, priority: i32, hidden: bool) -> (r: NodeFields)
        ensures
            r.successors@ == Seq::<NodeId>::empty(),
            r.name@ == name@,
            r.priority == priority,
            r.hidden == hidden,
    {
        NodeFields { successors: Vec::new(), name: String::from_str(name), priority, hidden }
    }
}

/// A node in the tree of commands and their parameters.
pub trait Node {
    /// The record of this node.
    spec fn spec_fields(&self) -> NodeFields;

    /// The help text of this node.
    spec fn spec_help(&self) -> Option<String>;

    /// The data describing this node.
    fn node_data(&self) -> (r: &NodeFields)
        ensures
            *r == self.spec_fields(),
    ;

    /// Help text describing this node.
    fn help_text(&self) -> (r: &Option<String>)
        ensures
            *r == self.spec_help(),
    ;

    /// The successors stored in this node itself. A wrapper keeps none of its
    /// own: `Grammar::successors` resolves it to its delegate's.
    fn successors(&self) -> (r: &Vec<NodeId>)
        ensures
            r@ == self.spec_fields().successors@,
    {
        &self.node_data().successors
    }

    /// Hidden nodes are still found for matching, but are hidden from completion.
    fn hidden(&self) -> (r: bool)
        ensures
            r == self.spec_fields().hidden,
    {
        self.node_data().hidden
    }

    /// The name of this node.
    fn name(&self) -> (r: &String)
        ensures
            r@ == self.spec_fields().name@,
    {
        &self.node_data().name
    }

    /// The priority of this node during matching and completion.
    fn priority(&self) -> (r: i32)
        ensures
            r == self.spec_fields().priority,
    {
        self.node_data().priority
    }
}

/// The root of a command tree.
pub struct RootNode {
    pub node_fields: NodeFields,
}

impl RootNode {
    /// Create a new `RootNode`, named `__root__`, visible, with default priority.
    pub fn new() -> (r: RootNode)
        ensures
            r.node_fields.successors@ == Seq::<NodeId>::empty(),
            r.node_fields.name@ == "__root__"@,
            r.node_fields.priority == PRIORITY_DEFAULT,
            !r.node_fields.hidden,
    {
        RootNode { node_fields: NodeFields::new("__root__", PRIORITY_DEFAULT, false) }
    }
}

impl Node for RootNode {
    open spec fn spec_fields(&self) -> NodeFields {
        self.node_fields
    }

    open spec fn spec_help(&self) -> Option<String> {
        None
    }

    fn node_data(&self) -> (r: &NodeFields) {
        &self.node_fields
    }

    fn help_text(&self) -> (r: &Option<String>) {
        &None
    }
}

/// A node representing a command.
pub struct CommandNode {
    pub node_fields: NodeFields,
    pub help: Option<String>,
    /// The handler run once a line ending in this command is accepted.
    pub handler: Option<HandlerId>,
    /// The declared parameters of this command, in order.
    pub parameters: Vec<NodeId>,
}

impl CommandNode {
    /// Construct a new `CommandNode` with no successors and no declared parameters.
    pub fn new(
        name: &str,
        priority: i32,
        hidden: bool,
        help: Option<String>,
        handler: Option<HandlerId>,
    ) -> (r: CommandNode)
        ensures
            r.node_fields.successors@ == Seq::<NodeId>::empty(),
            r.node_fields.name@ == name@,
            r.node_fields.priority == priority,
            r.node_fields.hidden == hidden,
            r.help == help,
            r.handler == handler,
            r.parameters@ == Seq::<NodeId>::empty(),
    {
        CommandNode {
            node_fields: NodeFields::new(name, priority, hidden),
            help,
            handler,
            parameters: Vec::new(),
        }
    }

    /// The handler which is executed once this node has been accepted.
    pub fn handler(&self) -> (r: Option<HandlerId>)
        ensures
            r == self.handler,
    {
        self.handler
    }

    /// Get the parameter nodes for this command.
    pub fn parameters(&self) -> (r: &Vec<NodeId>)
        ensures
            r@ == self.parameters@,
    {
        &self.parameters
    }
}

impl Node for CommandNode {
    open spec fn spec_fields(&self) -> NodeFields {
        self.node_fields
    }

    open spec fn spec_help(&self) -> Option<String> {
        self.help
    }

    fn node_data(&self) -> (r: &NodeFields) {
        &self.node_fields
    }

    fn help_text(&self) -> (r: &Option<String>) {
        &self.help
    }
}

/// A wrapper node takes its successors from another node, its delegate.
///
/// This is used for a help command so that it can complete normal commands.
pub struct WrapperNode {
    pub node_fields: NodeFields,
    pub help: Option<String>,
    /// The node whose successors this node has.
    pub delegate: NodeId,
}

impl WrapperNode {
    /// Construct a wrapper that delegates its successors to `delegate`.
    pub fn new(name: &str, help: Option<String>, delegate: NodeId) -> (r: WrapperNode)
        ensures
            r.node_fields.successors@ == Seq::<NodeId>::empty(),
            r.node_fields.name@ == name@,
            r.node_fields.priority == PRIORITY_DEFAULT,
            !r.node_fields.hidden,
            r.help == help,
            r.delegate == delegate,
    {
        WrapperNode { node_fields: NodeFields::new(name, PRIORITY_DEFAULT, false), help, delegate }
    }
}

impl Node for WrapperNode {
    open spec fn spec_fields(&self) -> NodeFields {
        self.node_fields
    }

    open spec fn spec_help(&self) -> Option<String> {
        self.help
    }

    fn node_data(&self) -> (r: &NodeFields) {
        &self.node_fields
    }

    fn help_text(&self) -> (r: &Option<String>) {
        &self.help
    }
}

/// The data for a repeatable node.
pub struct RepeatableNodeFields {
    pub repeatable: bool,
    pub repeat_marker: Option<NodeId>,
}

/// A node that may be matched more than once on a line.
pub trait RepeatableNode: Node {
    /// The repeatable record of this node.
    spec fn spec_repeatable(&self) -> RepeatableNodeFields;

    /// Internal data for a repeatable node.
    fn repeatable_data(&self) -> (r: &RepeatableNodeFields)
        ensures
            *r == self.spec_repeatable(),
    ;

    /// Whether or not this node can be matched more than once on one line.
    fn repeatable(&self) -> (r: bool)
        ensures
            r == self.spec_repeatable().repeatable,
    {
        self.repeatable_data().repeatable
    }

    /// The marker node, if any, that stands for this node once it is used up.
    fn repeat_marker(&self) -> (r: Option<NodeId>)
        ensures
            r == self.spec_repeatable().repeat_marker,
    {
        self.repeatable_data().repeat_marker
    }
}

/// The name half of a named parameter, followed by its value node.
pub struct ParameterNameNode {
    pub node_fields: NodeFields,
    pub repeatable_fields: RepeatableNodeFields,
    pub help: Option<String>,
    /// The value node that follows the name.
    pub parameter: NodeId,
}

impl ParameterNameNode {
    /// Construct the name half of a named parameter whose value node is `parameter`.
    pub fn new(
        name: &str,
        hidden: bool,
        help: Option<String>,
        repeatable: bool,
        parameter: NodeId,
    ) -> (r: ParameterNameNode)
        ensures
            r.node_fields.successors@ == Seq::<NodeId>::empty(),
            r.node_fields.name@ == name@,
            r.node_fields.priority == PRIORITY_PARAMETER,
            r.node_fields.hidden == hidden,
            r.repeatable_fields.repeatable == repeatable,
            r.repeatable_fields.repeat_marker.is_none(),
            r.help == help,
            r.parameter == parameter,
    {
        ParameterNameNode {
            node_fields: NodeFields::new(name, PRIORITY_PARAMETER, hidden),
            repeatable_fields: RepeatableNodeFields { repeatable, repeat_marker: None },
            help,
            parameter,
        }
    }
}

impl Node for ParameterNameNode {
    open spec fn spec_fields(&self) -> NodeFields {
        self.node_fields
    }

    open spec fn spec_help(&self) -> Option<String> {
        self.help
    }

    fn node_data(&self) -> (r: &NodeFields) {
        &self.node_fields
    }

    fn help_text(&self) -> (r: &Option<String>) {
        &self.help
    }
}

impl RepeatableNode for ParameterNameNode {
    open spec fn spec_repeatable(&self) -> RepeatableNodeFields {
        self.repeatable_fields
    }

    fn repeatable_data(&self) -> (r: &RepeatableNodeFields) {
        &self.repeatable_fields
    }
}

/// Data for parameter nodes.
pub struct ParameterNodeFields {
    pub node: NodeFields,
    pub repeatable: RepeatableNodeFields,
    pub help: Option<String>,
    pub required: bool,
}

impl ParameterNodeFields {
    /// Fields of a parameter with no successors yet.
    pub fn new(
        name: &str,
        priority: i32,
        hidden: bool,
        help: Option<String>,
        required: bool,
        repeatable: bool,
        repeat_marker: Option<NodeId>,
    ) -> (r: ParameterNodeFields)
        ensures
            r.node.successors@ == Seq::<NodeId>::empty(),
            r.node.name@ == name@,
            r.node.priority == priority,
            r.node.hidden == hidden,
            r.help == help,
            r.required == required,
            r.repeatable.repeatable == repeatable,
            r.repeatable.repeat_marker == repeat_marker,
    {
        ParameterNodeFields {
            node: NodeFields::new(name, priority, hidden),
            repeatable: RepeatableNodeFields { repeatable, repeat_marker },
            help,
            required,
        }
    }
}

/// Parameter nodes.
pub trait ParameterNode {
    /// The parameter record of this node.
    spec fn spec_parameter(&self) -> ParameterNodeFields;

    /// Internal data for a parameter node.
    fn parameter_data(&self) -> (r: &ParameterNodeFields)
        ensures
            *r == self.spec_parameter(),
    ;

    /// A `required` parameter must be supplied for the line to be accepted.
    fn required(&self) -> (r: bool)
        ensures
            r == self.spec_parameter().required,
    {
        self.parameter_data().required
    }
}

/// A flag parameter: matched by its name, its presence alone carries meaning.
pub struct FlagParameterNode {
    pub parameter_fields: ParameterNodeFields,
}

/// The value half of a named parameter: it accepts any non-empty token.
pub struct NamedParameterNode {
    pub parameter_fields: ParameterNodeFields,
}

/// A simple parameter: present in a command line only as a value.
pub struct SimpleParameterNode {
    pub parameter_fields: ParameterNodeFields,
}

impl ParameterNode for FlagParameterNode {
    open spec fn spec_parameter(&self) -> ParameterNodeFields {
        self.parameter_fields
    }

    fn parameter_data(&self) -> (r: &ParameterNodeFields) {
        &self.parameter_fields
    }
}

impl ParameterNode for NamedParameterNode {
    open spec fn spec_parameter(&self) -> ParameterNodeFields {
        self.parameter_fields
    }

    fn parameter_data(&self) -> (r: &ParameterNodeFields) {
        &self.parameter_fields
    }
}

impl ParameterNode for SimpleParameterNode {
    open spec fn spec_parameter(&self) -> ParameterNodeFields {
        self.parameter_fields
    }

    fn parameter_data(&self) -> (r: &ParameterNodeFields) {
        &self.parameter_fields
    }
}

} // verus!
