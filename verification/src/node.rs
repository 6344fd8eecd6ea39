//! The abstract syntax tree of a Zinc program and its mathematical model.

use vstd::prelude::*;

verus! {

/// The type tag of a value, a variable, a parameter or a function result.
#[derive(Debug, Clone, Copy, PartialEq, Eq, Structural)]
pub enum AbstractType {
    Integer,
    Boolean,
    String,
    Void,
}

/// An expression. Names and string literals are byte strings.
#[derive(Debug)]
pub enum Node {
    Int(i32),
    Add { lhs: Box<Node>, rhs: Box<Node> },
    Subtract { lhs: Box<Node>, rhs: Box<Node> },
    Multiply { lhs: Box<Node>, rhs: Box<Node> },
    Divide { lhs: Box<Node>, rhs: Box<Node> },
    Equal { lhs: Box<Node>, rhs: Box<Node> },
    NotEqual { lhs: Box<Node>, rhs: Box<Node> },
    LessThanOrEqual { lhs: Box<Node>, rhs: Box<Node> },
    GreaterThanOrEqual { lhs: Box<Node>, rhs: Box<Node> },
    LessThan { lhs: Box<Node>, rhs: Box<Node> },
    GreaterThan { lhs: Box<Node>, rhs: Box<Node> },
    Bool(bool),
    BoolEqual { lhs: Box<Node>, rhs: Box<Node> },
    BoolNotEqual { lhs: Box<Node>, rhs: Box<Node> },
    StringLiteral(Vec<u8>),
    Let { name: Vec<u8>, var_type: AbstractType, value: Box<Node> },
    Get { name: Vec<u8> },
    Function { name: Vec<u8>, args: Vec<Node> },
}

#[derive(Debug)]
pub enum Statement {
    Node(Node),
    Return(Node),
    If { condition: Node, branch: Vec<Statement>, else_branch: Vec<Statement> },
    While { condition: Node, loop_statements: Vec<Statement> },
    InfiniteLoop(Vec<Statement>),
}

/// A function parameter: its name and its type.
#[derive(Debug)]
pub struct Definition {
    pub name: Vec<u8>,
    pub data_type: AbstractType,
}

#[derive(Debug)]
pub struct FunctionInfo {
    pub body: Vec<Statement>,
    pub args: Vec<Definition>,
    pub return_type: AbstractType,
}

/// A program: the top-level statements, which form the entry function, and
/// the named functions. A parsed program has no two functions of one name;
/// where a program made by hand has, the last of them is the one that counts.
#[derive(Debug)]
pub struct FileDescription {
    pub statements: Vec<Statement>,
    pub functions: Vec<(Vec<u8>, FunctionInfo)>,
}

/// The two-operand operators of the language.
#[derive(Debug, Clone, Copy, PartialEq, Eq, Structural)]
pub enum BinaryOp {
    Add,
    Subtract,
    Multiply,
    Divide,
    Equal,
    NotEqual,
    LessThanOrEqual,
    GreaterThanOrEqual,
    LessThan,
    GreaterThan,
    BoolEqual,
    BoolNotEqual,
}

/// The model of an expression.
pub ghost enum NodeModel {
    Int(i32),
    Bool(bool),
    StringLiteral(Seq<u8>),
    Binary { op: BinaryOp, lhs: Box<NodeModel>, rhs: Box<NodeModel> },
    Let { name: Seq<u8>, var_type: AbstractType, value: Box<NodeModel> },
    Get { name: Seq<u8> },
    Function { name: Seq<u8>, args: Seq<NodeModel> },
}

/// The model of a statement.
pub ghost enum StatementModel {
    Node(NodeModel),
    Return(NodeModel),
    If { condition: NodeModel, branch: Seq<StatementModel>, else_branch: Seq<StatementModel> },
    While { condition: NodeModel, loop_statements: Seq<StatementModel> },
    InfiniteLoop(Seq<StatementModel>),
}

pub ghost struct DefinitionModel {
    pub name: Seq<u8>,
    pub data_type: AbstractType,
}

pub ghost struct FunctionModel {
    pub body: Seq<StatementModel>,
    pub args: Seq<DefinitionModel>,
    pub return_type: AbstractType,
}

pub ghost struct ProgramModel {
    pub statements: Seq<StatementModel>,
    pub functions: Seq<(Seq<u8>, FunctionModel)>,
}

pub open spec fn binary(op: BinaryOp, lhs: NodeModel, rhs: NodeModel) -> NodeModel {
    NodeModel::Binary { op, lhs: Box::new(lhs), rhs: Box::new(rhs) }
}

/// The model of an expression.
pub open spec fn node_model(node: Node) -> NodeModel
    decreases node,
{
    match node {
        Node::Int(v) => NodeModel::Int(v),
        Node::Bool(v) => NodeModel::Bool(v),
        Node::StringLiteral(s) => NodeModel::StringLiteral(s@),
        Node::Add { lhs, rhs } => binary(BinaryOp::Add, node_model(*lhs), node_model(*rhs)),
        Node::Subtract { lhs, rhs } => binary(
            BinaryOp::Subtract,
            node_model(*lhs),
            node_model(*rhs),
        ),
        Node::Multiply { lhs, rhs } => binary(
            BinaryOp::Multiply,
            node_model(*lhs),
            node_model(*rhs),
        ),
        Node::Divide { lhs, rhs } => binary(BinaryOp::Divide, node_model(*lhs), node_model(*rhs)),
        Node::Equal { lhs, rhs } => binary(BinaryOp::Equal, node_model(*lhs), node_model(*rhs)),
        Node::NotEqual { lhs, rhs } => binary(
            BinaryOp::NotEqual,
            node_model(*lhs),
            node_model(*rhs),
        ),
        Node::LessThanOrEqual { lhs, rhs } => binary(
            BinaryOp::LessThanOrEqual,
            node_model(*lhs),
            node_model(*rhs),
        ),
        Node::GreaterThanOrEqual { lhs, rhs } => binary(
            BinaryOp::GreaterThanOrEqual,
            node_model(*lhs),
            node_model(*rhs),
        ),
        Node::LessThan { lhs, rhs } => binary(
            BinaryOp::LessThan,
            node_model(*lhs),
            node_model(*rhs),
        ),
        Node::GreaterThan { lhs, rhs } => binary(
            BinaryOp::GreaterThan,
            node_model(*lhs),
            node_model(*rhs),
        ),
        Node::BoolEqual { lhs, rhs } => binary(
            BinaryOp::BoolEqual,
            node_model(*lhs),
            node_model(*rhs),
        ),
        Node::BoolNotEqual { lhs, rhs } => binary(
            BinaryOp::BoolNotEqual,
            node_model(*lhs),
            node_model(*rhs),
        ),
        Node::Let { name, var_type, value } => NodeModel::Let {
            name: name@,
            var_type,
            value: Box::new(node_model(*value)),
        },
        Node::Get { name } => NodeModel::Get { name: name@ },
        Node::Function { name, args } => NodeModel::Function {
            name: name@,
            args: Seq::new(
                args.len() as nat,
                |i: int|
                    if 0 <= i < args.len() {
                        node_model(args[i])
                    } else {
                        NodeModel::Int(0)
                    },
            ),
        },
    }
}

impl View for Node {
    type V = NodeModel;

    open spec fn view(&self) -> NodeModel {
        node_model(*self)
    }
}

/// The models of a list of expressions, in order.
pub open spec fn nodes_view(nodes: Seq<Node>) -> Seq<NodeModel> {
    Seq::new(nodes.len(), |i: int| nodes[i].view())
}

/// The model of a statement.
pub open spec fn statement_model(statement: Statement) -> StatementModel
    decreases statement,
{
    match statement {
        Statement::Node(n) => StatementModel::Node(n@),
        Statement::Return(n) => StatementModel::Return(n@),
        Statement::If { condition, branch, else_branch } => StatementModel::If {
            condition: condition@,
            branch: Seq::new(
                branch.len() as nat,
                |i: int|
                    if 0 <= i < branch.len() {
                        statement_model(branch[i])
                    } else {
                        StatementModel::InfiniteLoop(Seq::empty())
                    },
            ),
            else_branch: Seq::new(
                else_branch.len() as nat,
                |i: int|
                    if 0 <= i < else_branch.len() {
                        statement_model(else_branch[i])
                    } else {
                        StatementModel::InfiniteLoop(Seq::empty())
                    },
            ),
        },
        Statement::While { condition, loop_statements } => StatementModel::While {
            condition: condition@,
            loop_statements: Seq::new(
                loop_statements.len() as nat,
                |i: int|
                    if 0 <= i < loop_statements.len() {
                        statement_model(loop_statements[i])
                    } else {
                        StatementModel::InfiniteLoop(Seq::empty())
                    },
            ),
        },
        Statement::InfiniteLoop(body) => StatementModel::InfiniteLoop(
            Seq::new(
                body.len() as nat,
                |i: int|
                    if 0 <= i < body.len() {
                        statement_model(body[i])
                    } else {
                        StatementModel::InfiniteLoop(Seq::empty())
                    },
            ),
        ),
    }
}

impl View for Statement {
    type V = StatementModel;

    open spec fn view(&self) -> StatementModel {
        statement_model(*self)
    }
}

/// The models of a list of statements, in order.
pub open spec fn statements_view(statements: Seq<Statement>) -> Seq<StatementModel> {
    Seq::new(statements.len(), |i: int| statements[i].view())
}

/// The model of a call holds the models of its arguments.
pub proof fn lemma_call_model(name: Vec<u8>, args: Vec<Node>)
    ensures
        (Node::Function { name, args })@ == (NodeModel::Function {
            name: name@,
            args: nodes_view(args@),
        }),
{
    match node_model(Node::Function { name, args }) {
        NodeModel::Function { name: _, args: inner } => {
            assert(inner =~= nodes_view(args@));
        },
        _ => {},
    }
}

/// The model of an `if` holds the models of the statements of both branches.
pub proof fn lemma_if_model(condition: Node, branch: Vec<Statement>, else_branch: Vec<Statement>)
    ensures
        (Statement::If { condition, branch, else_branch })@ == (StatementModel::If {
            condition: condition@,
            branch: statements_view(branch@),
            else_branch: statements_view(else_branch@),
        }),
{
    match statement_model(Statement::If { condition, branch, else_branch }) {
        StatementModel::If { condition: _, branch: inner, else_branch: else_inner } => {
            assert(inner =~= statements_view(branch@));
            assert(else_inner =~= statements_view(else_branch@));
        },
        _ => {},
    }
}

/// The model of a `while` holds the models of the statements of its body.
pub proof fn lemma_while_model(condition: Node, loop_statements: Vec<Statement>)
    ensures
        (Statement::While { condition, loop_statements })@ == (StatementModel::While {
            condition: condition@,
            loop_statements: statements_view(loop_statements@),
        }),
{
    match statement_model(Statement::While { condition, loop_statements }) {
        StatementModel::While { condition: _, loop_statements: inner } => {
            assert(inner =~= statements_view(loop_statements@));
        },
        _ => {},
    }
}

/// The model of a `loop` holds the models of the statements of its body.
pub proof fn lemma_loop_model(body: Vec<Statement>)
    ensures
        Statement::InfiniteLoop(body)@ == StatementModel::InfiniteLoop(statements_view(body@)),
{
    match statement_model(Statement::InfiniteLoop(body)) {
        StatementModel::InfiniteLoop(inner) => {
            assert(inner =~= statements_view(body@));
        },
        _ => {},
    }
}

impl View for Definition {
    type V = DefinitionModel;

    open spec fn view(&self) -> DefinitionModel {
        DefinitionModel { name: self.name@, data_type: self.data_type }
    }
}

pub open spec fn definitions_view(definitions: Seq<Definition>) -> Seq<DefinitionModel> {
    Seq::new(definitions.len(), |i: int| definitions[i].view())
}

impl View for FunctionInfo {
    type V = FunctionModel;

    open spec fn view(&self) -> FunctionModel {
        FunctionModel {
            body: statements_view(self.body@),
            args: definitions_view(self.args@),
            return_type: self.return_type,
        }
    }
}

pub open spec fn functions_view(functions: Seq<(Vec<u8>, FunctionInfo)>) -> Seq<
    (Seq<u8>, FunctionModel),
> {
    Seq::new(functions.len(), |i: int| (functions[i].0@, functions[i].1@))
}

impl View for FileDescription {
    type V = ProgramModel;

    open spec fn view(&self) -> ProgramModel {
        ProgramModel {
            statements: statements_view(self.statements@),
            functions: functions_view(self.functions@),
        }
    }
}

/// The operator and the two operands of an expression that applies one.
pub fn operands<'a>(node: &'a Node) -> (r: (BinaryOp, &'a Node, &'a Node))
    requires
        node@ is Binary,
    ensures
        node@ == binary(r.0, r.1@, r.2@),
        decreases_to!(*node => *r.1),
        decreases_to!(*node => *r.2),
{
    match node {
        Node::Add { lhs, rhs } => (BinaryOp::Add, lhs, rhs),
        Node::Subtract { lhs, rhs } => (BinaryOp::Subtract, lhs, rhs),
        Node::Multiply { lhs, rhs } => (BinaryOp::Multiply, lhs, rhs),
        Node::Divide { lhs, rhs } => (BinaryOp::Divide, lhs, rhs),
        Node::Equal { lhs, rhs } => (BinaryOp::Equal, lhs, rhs),
        Node::NotEqual { lhs, rhs } => (BinaryOp::NotEqual, lhs, rhs),
        Node::LessThanOrEqual { lhs, rhs } => (BinaryOp::LessThanOrEqual, lhs, rhs),
        Node::GreaterThanOrEqual { lhs, rhs } => (BinaryOp::GreaterThanOrEqual, lhs, rhs),
        Node::LessThan { lhs, rhs } => (BinaryOp::LessThan, lhs, rhs),
        Node::GreaterThan { lhs, rhs } => (BinaryOp::GreaterThan, lhs, rhs),
        Node::BoolEqual { lhs, rhs } => (BinaryOp::BoolEqual, lhs, rhs),
        Node::BoolNotEqual { lhs, rhs } => (BinaryOp::BoolNotEqual, lhs, rhs),
        _ => vstd::pervasive::unreached(),
    }
}

} // verus!
