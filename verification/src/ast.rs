//! The abstract syntax tree that the parser builds and the interpreter walks.
use vstd::prelude::*;
use crate::number::{canonical, Number, NumberView};

verus! {

/// The operations that combine the running value of an assignment with an
/// operand.
#[derive(Debug, Clone, Copy, PartialEq, Eq, Structural)]
pub enum BinaryOperation {
    Add,
    Subtract,
    Multiply,
    Divide,
    Exponent,
    Modulus,
    Equal,
    GreaterThan,
    LessThan,
    Or,
    And,
}

/// The operations that change the running value of an assignment alone.
#[derive(Debug, Clone, Copy, PartialEq, Eq, Structural)]
pub enum UnaryOperation {
    Not,
}

/// One node of the tree. Every child belongs to exactly one parent.
#[derive(Debug, PartialEq)]
pub enum Node {
    /// Target, first value, and the operations applied to it in order.
    AssignVariable(String, Box<Node>, Vec<Node>),
    /// An operation and its right-hand operand.
    Binary(BinaryOperation, Box<Node>),
    Boolean(bool),
    /// Function name and argument values.
    CallFunction(String, Vec<Node>),
    DeclareBoolean(String, Box<Node>),
    DeclareFloat(String, Box<Node>),
    /// Name, parameters, body, and whether the function returns nothing.
    DeclareFunction(String, Vec<Node>, Vec<Node>, bool),
    DeclareString(String, Box<Node>),
    Float(Number),
    /// Count, loop variable, body.
    For(Box<Node>, Box<Node>, Vec<Node>),
    /// Condition, statements run when it holds, statements run otherwise.
    If(Box<Node>, Vec<Node>, Vec<Node>),
    /// The entry point and its statements.
    Main(Vec<Node>),
    Noop,
    Print(Box<Node>),
    ReadBoolean(Box<Node>),
    ReadFloat(Box<Node>),
    ReadString(Box<Node>),
    Return(Box<Node>),
    String(String),
    Unary(UnaryOperation),
    Variable(String),
    /// Condition and body.
    While(Box<Node>, Vec<Node>),
}

/// The mathematical value of a [`Node`]: text as a sequence of characters,
/// children as sequences of their own values.
pub enum NodeView {
    AssignVariable(Seq<char>, Box<NodeView>, Seq<NodeView>),
    Binary(BinaryOperation, Box<NodeView>),
    Boolean(bool),
    CallFunction(Seq<char>, Seq<NodeView>),
    DeclareBoolean(Seq<char>, Box<NodeView>),
    DeclareFloat(Seq<char>, Box<NodeView>),
    DeclareFunction(Seq<char>, Seq<NodeView>, Seq<NodeView>, bool),
    DeclareString(Seq<char>, Box<NodeView>),
    Float(NumberView),
    For(Box<NodeView>, Box<NodeView>, Seq<NodeView>),
    If(Box<NodeView>, Seq<NodeView>, Seq<NodeView>),
    Main(Seq<NodeView>),
    Noop,
    Print(Box<NodeView>),
    ReadBoolean(Box<NodeView>),
    ReadFloat(Box<NodeView>),
    ReadString(Box<NodeView>),
    Return(Box<NodeView>),
    String(Seq<char>),
    Unary(UnaryOperation),
    Variable(Seq<char>),
    While(Box<NodeView>, Seq<NodeView>),
}

pub open spec fn node_view(n: Node) -> NodeView
    decreases n, 0int,
{
    match n {
        Node::AssignVariable(name, first, operations) => NodeView::AssignVariable(
            name@,
            Box::new(node_view(*first)),
            nodes_view(operations@),
        ),
        Node::Binary(operation, operand) => NodeView::Binary(
            operation,
            Box::new(node_view(*operand)),
        ),
        Node::Boolean(value) => NodeView::Boolean(value),
        Node::CallFunction(name, arguments) => NodeView::CallFunction(
            name@,
            nodes_view(arguments@),
        ),
        Node::DeclareBoolean(name, value) => NodeView::DeclareBoolean(
            name@,
            Box::new(node_view(*value)),
        ),
        Node::DeclareFloat(name, value) => NodeView::DeclareFloat(
            name@,
            Box::new(node_view(*value)),
        ),
        Node::DeclareFunction(name, parameters, body, void) => NodeView::DeclareFunction(
            name@,
            nodes_view(parameters@),
            nodes_view(body@),
            void,
        ),
        Node::DeclareString(name, value) => NodeView::DeclareString(
            name@,
            Box::new(node_view(*value)),
        ),
        Node::Float(value) => NodeView::Float(value@),
        Node::For(count, variable, body) => NodeView::For(
            Box::new(node_view(*count)),
            Box::new(node_view(*variable)),
            nodes_view(body@),
        ),
        Node::If(condition, accepted, rejected) => NodeView::If(
            Box::new(node_view(*condition)),
            nodes_view(accepted@),
            nodes_view(rejected@),
        ),
        Node::Main(body) => NodeView::Main(nodes_view(body@)),
        Node::Noop => NodeView::Noop,
        Node::Print(value) => NodeView::Print(Box::new(node_view(*value))),
        Node::ReadBoolean(variable) => NodeView::ReadBoolean(Box::new(node_view(*variable))),
        Node::ReadFloat(variable) => NodeView::ReadFloat(Box::new(node_view(*variable))),
        Node::ReadString(variable) => NodeView::ReadString(Box::new(node_view(*variable))),
        Node::Return(value) => NodeView::Return(Box::new(node_view(*value))),
        Node::String(value) => NodeView::String(value@),
        Node::Unary(operation) => NodeView::Unary(operation),
        Node::Variable(name) => NodeView::Variable(name@),
        Node::While(condition, body) => NodeView::While(
            Box::new(node_view(*condition)),
            nodes_view(body@),
        ),
    }
}

/// The values of a sequence of nodes, one for one.
pub open spec fn nodes_view(nodes: Seq<Node>) -> Seq<NodeView>
    decreases nodes, 1int,
{
    Seq::new(
        nodes.len(),
        |i: int|
            if 0 <= i < nodes.len() {
                node_view(nodes[i])
            } else {
                NodeView::Noop
            },
    )
}

impl View for Node {
    type V = NodeView;

    open spec fn view(&self) -> NodeView {
        node_view(*self)
    }
}

/// Adding a node at the end of a sequence adds its value at the end of the
/// sequence's value.
pub proof fn lemma_nodes_view_push(nodes: Seq<Node>, node: Node)
    ensures
        nodes_view(nodes.push(node)) == nodes_view(nodes).push(node@),
{
    assert(nodes_view(nodes.push(node)) =~= nodes_view(nodes).push(node@));
}

/// The sequence of no nodes has the empty value.
pub proof fn lemma_nodes_view_empty()
    ensures
        nodes_view(Seq::<Node>::empty()) == Seq::<NodeView>::empty(),
{
    assert(nodes_view(Seq::<Node>::empty()) =~= Seq::<NodeView>::empty());
}

/// Literals and variable references: what may stand where a value is
/// wanted.
pub open spec fn is_value(n: NodeView) -> bool {
    n is Float || n is String || n is Boolean || n is Variable
}

/// The nodes that may stand in a body.
pub open spec fn is_statement(n: NodeView) -> bool {
    n is AssignVariable || n is CallFunction || n is DeclareBoolean || n is DeclareFloat
        || n is DeclareString || n is For || n is If || n is Noop || n is Print
        || n is ReadBoolean || n is ReadFloat || n is ReadString || n is Return || n is While
}

/// The shape that every tree built by the parser has. Among other things
/// the initial value of a declaration is a literal of the declared kind.
pub open spec fn well_formed(n: NodeView) -> bool
    decreases n, 0int,
{
    match n {
        NodeView::AssignVariable(_, first, operations) => {
            &&& is_value(*first) || *first is CallFunction
            &&& well_formed(*first)
            &&& are_operations(operations)
        },
        NodeView::Binary(_, operand) => is_value(*operand) && well_formed(*operand),
        NodeView::Boolean(_) => true,
        NodeView::CallFunction(_, arguments) => are_values(arguments),
        NodeView::DeclareBoolean(_, value) => *value is Boolean,
        NodeView::DeclareFloat(_, value) => *value is Float && well_formed(*value),
        NodeView::DeclareFunction(_, parameters, body, _) => {
            &&& forall|i: int| 0 <= i < parameters.len() ==> #[trigger] parameters[i] is Variable
            &&& are_statements(body)
        },
        NodeView::DeclareString(_, value) => *value is String,
        NodeView::Float(value) => canonical(value),
        NodeView::For(count, variable, body) => {
            &&& is_value(*count)
            &&& well_formed(*count)
            &&& *variable is Variable
            &&& are_statements(body)
        },
        NodeView::If(condition, accepted, rejected) => {
            &&& is_value(*condition)
            &&& well_formed(*condition)
            &&& are_statements(accepted)
            &&& are_statements(rejected)
        },
        NodeView::Main(body) => are_statements(body),
        NodeView::Noop => true,
        NodeView::Print(value) => is_value(*value) && well_formed(*value),
        NodeView::ReadBoolean(variable) => *variable is Variable,
        NodeView::ReadFloat(variable) => *variable is Variable,
        NodeView::ReadString(variable) => *variable is Variable,
        NodeView::Return(value) => is_value(*value) && well_formed(*value),
        NodeView::String(_) => true,
        NodeView::Unary(_) => true,
        NodeView::Variable(_) => true,
        NodeView::While(condition, body) => {
            &&& is_value(*condition)
            &&& well_formed(*condition)
            &&& are_statements(body)
        },
    }
}

/// Every node is a well-formed statement.
pub open spec fn are_statements(nodes: Seq<NodeView>) -> bool
    decreases nodes, 1int,
{
    forall|i: int|
        0 <= i < nodes.len() ==> is_statement(#[trigger] nodes[i]) && well_formed(nodes[i])
}

/// Every node is a well-formed value.
pub open spec fn are_values(nodes: Seq<NodeView>) -> bool
    decreases nodes, 1int,
{
    forall|i: int| 0 <= i < nodes.len() ==> is_value(#[trigger] nodes[i]) && well_formed(nodes[i])
}

/// Every node is a well-formed operation.
pub open spec fn are_operations(nodes: Seq<NodeView>) -> bool
    decreases nodes, 1int,
{
    forall|i: int|
        0 <= i < nodes.len() ==> (#[trigger] nodes[i] is Binary || nodes[i] is Unary)
            && well_formed(nodes[i])
}

impl Node {
    /// A copy of the node and of everything below it.
    pub fn duplicate(&self) -> (r: Node)
        ensures
            r@ == self@,
        decreases self, 0int,
    {
        match self {
            Node::AssignVariable(name, first, operations) => Node::AssignVariable(
                name.clone(),
                Box::new(first.duplicate()),
                duplicate_all(operations),
            ),
            Node::Binary(operation, operand) => Node::Binary(
                *operation,
                Box::new(operand.duplicate()),
            ),
            Node::Boolean(value) => Node::Boolean(*value),
            Node::CallFunction(name, arguments) => Node::CallFunction(
                name.clone(),
                duplicate_all(arguments),
            ),
            Node::DeclareBoolean(name, value) => Node::DeclareBoolean(
                name.clone(),
                Box::new(value.duplicate()),
            ),
            Node::DeclareFloat(name, value) => Node::DeclareFloat(
                name.clone(),
                Box::new(value.duplicate()),
            ),
            Node::DeclareFunction(name, parameters, body, void) => Node::DeclareFunction(
                name.clone(),
                duplicate_all(parameters),
                duplicate_all(body),
                *void,
            ),
            Node::DeclareString(name, value) => Node::DeclareString(
                name.clone(),
                Box::new(value.duplicate()),
            ),
            Node::Float(value) => Node::Float(value.duplicate()),
            Node::For(count, variable, body) => Node::For(
                Box::new(count.duplicate()),
                Box::new(variable.duplicate()),
                duplicate_all(body),
            ),
            Node::If(condition, accepted, rejected) => Node::If(
                Box::new(condition.duplicate()),
                duplicate_all(accepted),
                duplicate_all(rejected),
            ),
            Node::Main(body) => Node::Main(duplicate_all(body)),
            Node::Noop => Node::Noop,
            Node::Print(value) => Node::Print(Box::new(value.duplicate())),
            Node::ReadBoolean(variable) => Node::ReadBoolean(Box::new(variable.duplicate())),
            Node::ReadFloat(variable) => Node::ReadFloat(Box::new(variable.duplicate())),
            Node::ReadString(variable) => Node::ReadString(Box::new(variable.duplicate())),
            Node::Return(value) => Node::Return(Box::new(value.duplicate())),
            Node::String(value) => Node::String(value.clone()),
            Node::Unary(operation) => Node::Unary(*operation),
            Node::Variable(name) => Node::Variable(name.clone()),
            Node::While(condition, body) => Node::While(
                Box::new(condition.duplicate()),
                duplicate_all(body),
            ),
        }
    }
}

/// Copies of the nodes, in order.
pub fn duplicate_all(nodes: &Vec<Node>) -> (r: Vec<Node>)
    ensures
        nodes_view(r@) == nodes_view(nodes@),
    decreases nodes, 1int,
{
    let mut r: Vec<Node> = Vec::new();
    let mut i: usize = 0;
    while i < nodes.len()
        invariant
            i <= nodes.len(),
            r.len() == i,
            forall|k: int| 0 <= k < i ==> r@[k]@ == nodes@[k]@,
        decreases nodes.len() - i,
    {
        r.push(nodes[i].duplicate());
        i += 1;
    }
    assert(nodes_view(r@) =~= nodes_view(nodes@));
    r
}

} // verus!
