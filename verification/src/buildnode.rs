//! Lowering of expressions and statements to basic blocks: the commands for a
//! function builder, in the order in which it has to perform them.
//!
//! Values, blocks and variables are numbered from zero in the order in which
//! the commands make them. Code that no path reaches (what follows a `return`
//! or an endless loop in the same list of statements) is not lowered, so no
//! command ever adds to a block that has its terminator.

use crate::node::{
    AbstractType, BinaryOp, Node, NodeModel, Statement, StatementModel, binary, lemma_call_model,
    lemma_if_model, lemma_loop_model, lemma_while_model, nodes_view, operands, statements_view,
};
use crate::text::{bytes_eq, copy_bytes};
use vstd::prelude::*;

verus! {

/// The type of a value in the generated code.
#[derive(Debug, Clone, Copy, PartialEq, Eq, Structural)]
pub enum MachineType {
    /// A 32-bit integer.
    I32,
    /// A one-bit boolean.
    B1,
    /// An 8-bit integer.
    I8,
    /// An address of the target machine.
    Pointer,
}

/// The machine type of a type of the language; `Void` has none.
pub open spec fn machine_type(abstract_type: AbstractType) -> Option<MachineType> {
    match abstract_type {
        AbstractType::Integer => Some(MachineType::I32),
        AbstractType::Boolean => Some(MachineType::B1),
        AbstractType::String => Some(MachineType::Pointer),
        AbstractType::Void => None,
    }
}

pub fn deabstract(abstract_type: &AbstractType) -> (r: Option<MachineType>)
    ensures
        r == machine_type(*abstract_type),
{
    match abstract_type {
        AbstractType::Integer => Some(MachineType::I32),
        AbstractType::Boolean => Some(MachineType::B1),
        AbstractType::String => Some(MachineType::Pointer),
        AbstractType::Void => None,
    }
}

/// The integer operations of the generated code.
#[derive(Debug, Clone, Copy, PartialEq, Eq, Structural)]
pub enum Operation {
    Add,
    Subtract,
    Multiply,
    /// Signed division.
    Divide,
    Equal,
    NotEqual,
    SignedLessThanOrEqual,
    SignedGreaterThanOrEqual,
    SignedLessThan,
    SignedGreaterThan,
}

/// One step of a function builder.
#[derive(Debug, Clone, Copy, PartialEq, Eq, Structural)]
pub enum Command {
    /// Makes the next block.
    CreateBlock,
    /// Gives a block the parameters of the function as block parameters.
    AppendParameters { block: usize },
    /// Makes a block the current one.
    SwitchToBlock { block: usize },
    /// Declares a variable of a machine type.
    DeclareVariable { variable: usize, machine_type: MachineType },
    /// Stores a block parameter of the entry block in a variable.
    DefineParameter { variable: usize, parameter: usize },
    /// Stores a value in a variable.
    DefineVariable { variable: usize, value: usize },
    /// Makes the next value: what a variable holds.
    UseVariable { variable: usize },
    /// Makes the next value: a 32-bit integer constant.
    IntegerConstant { value: i32 },
    /// Makes the next value: a boolean constant.
    BooleanConstant { value: bool },
    /// Makes the next value: an integer operation on two values.
    Operate { operation: Operation, lhs: usize, rhs: usize },
    /// Makes the next value: a boolean as an 8-bit integer.
    Widen { value: usize },
    /// Makes the next value: the address of a string literal, which is the
    /// read-only data object `string<N>` for the literal at position `N`.
    Symbol { data: usize },
    /// Adds a value to the arguments of the next call.
    Argument { value: usize },
    /// Makes the next value: a call of a function with the last `arguments`
    /// arguments added, which it takes away. Where the function returns
    /// nothing, the value is the integer constant zero.
    Call { function: usize, arguments: usize },
    /// Branches to a block where a value is not zero, and goes on otherwise.
    BranchIfNonZero { condition: usize, block: usize },
    /// Ends the current block with a jump.
    Jump { block: usize },
    /// Ends the current block with the return of a value.
    Return { value: usize },
    /// Ends the current block with a return without a value.
    ReturnNothing,
}

/// Whether a command makes a value.
pub open spec fn makes_value(command: Command) -> bool {
    match command {
        Command::UseVariable { .. } => true,
        Command::IntegerConstant { .. } => true,
        Command::BooleanConstant { .. } => true,
        Command::Operate { .. } => true,
        Command::Widen { .. } => true,
        Command::Symbol { .. } => true,
        Command::Call { .. } => true,
        _ => false,
    }
}

/// Whether a command ends the current block.
pub open spec fn is_terminator(command: Command) -> bool {
    match command {
        Command::Jump { .. } => true,
        Command::Return { .. } => true,
        Command::ReturnNothing => true,
        _ => false,
    }
}

/// Whether the current block has its terminator after a list of commands, or
/// `None` where the list breaks the rules of a builder: a command that adds to
/// a block needs a current block without terminator, and a switch to a block
/// needs the current block, if there is one, to have its terminator.
pub open spec fn filled_after(commands: Seq<Command>) -> Option<bool>
    decreases commands.len(),
{
    if commands.len() == 0 {
        Some(true)
    } else {
        match filled_after(commands.drop_last()) {
            None => None,
            Some(filled) => match commands.last() {
                Command::CreateBlock => Some(filled),
                Command::AppendParameters { .. } => Some(filled),
                Command::DeclareVariable { .. } => Some(filled),
                Command::SwitchToBlock { .. } => if filled {
                    Some(false)
                } else {
                    None
                },
                command => if filled {
                    None
                } else {
                    Some(is_terminator(command))
                },
            },
        }
    }
}

/// What the commands so far have made, as far as later commands can refer
/// to it.
pub ghost struct Scope {
    /// The number of blocks made.
    pub blocks: nat,
    /// The number of values made.
    pub values: nat,
    /// The number of variables declared.
    pub variables: nat,
    /// The number of arguments added that no call has taken yet.
    pub arguments: nat,
    /// The number of string literals that the commands need: one more than
    /// the greatest that a command names.
    pub literals: nat,
}

/// Whether a command refers only to what is in scope: blocks, values and
/// variables that earlier commands made, a function of a table of
/// `functions` entries, and arguments that were added and not yet taken. A
/// variable is declared under the next free number.
pub open spec fn in_scope(command: Command, scope: Scope, functions: nat) -> bool {
    match command {
        Command::CreateBlock => true,
        Command::AppendParameters { block } => block < scope.blocks,
        Command::SwitchToBlock { block } => block < scope.blocks,
        Command::DeclareVariable { variable, .. } => variable == scope.variables,
        Command::DefineParameter { variable, .. } => variable < scope.variables,
        Command::DefineVariable { variable, value } => variable < scope.variables && value
            < scope.values,
        Command::UseVariable { variable } => variable < scope.variables,
        Command::IntegerConstant { .. } => true,
        Command::BooleanConstant { .. } => true,
        Command::Operate { lhs, rhs, .. } => lhs < scope.values && rhs < scope.values,
        Command::Widen { value } => value < scope.values,
        Command::Symbol { .. } => true,
        Command::Argument { value } => value < scope.values,
        Command::Call { function, arguments } => function < functions && arguments
            <= scope.arguments,
        Command::BranchIfNonZero { condition, block } => condition < scope.values && block
            < scope.blocks,
        Command::Jump { block } => block < scope.blocks,
        Command::Return { value } => value < scope.values,
        Command::ReturnNothing => true,
    }
}

/// The scope after one more command.
pub open spec fn widen_scope(scope: Scope, command: Command) -> Scope {
    Scope {
        blocks: if command == Command::CreateBlock {
            scope.blocks + 1
        } else {
            scope.blocks
        },
        values: if makes_value(command) {
            scope.values + 1
        } else {
            scope.values
        },
        variables: match command {
            Command::DeclareVariable { .. } => scope.variables + 1,
            _ => scope.variables,
        },
        arguments: match command {
            Command::Argument { .. } => scope.arguments + 1,
            Command::Call { arguments, .. } => (scope.arguments - arguments) as nat,
            _ => scope.arguments,
        },
        literals: match command {
            Command::Symbol { data } => if data >= scope.literals {
                (data + 1) as nat
            } else {
                scope.literals
            },
            _ => scope.literals,
        },
    }
}

/// The scope after a list of commands, or `None` where one of them refers to
/// what is not in scope.
pub open spec fn scope_after(commands: Seq<Command>, functions: nat) -> Option<Scope>
    decreases commands.len(),
{
    if commands.len() == 0 {
        Some(Scope { blocks: 0, values: 0, variables: 0, arguments: 0, literals: 0 })
    } else {
        match scope_after(commands.drop_last(), functions) {
            None => None,
            Some(scope) => if in_scope(commands.last(), scope, functions) {
                Some(widen_scope(scope, commands.last()))
            } else {
                None
            },
        }
    }
}

/// What a function builder holds while a function is lowered.
pub ghost struct BuilderModel {
    /// The commands so far.
    pub commands: Seq<Command>,
    /// The number of blocks made.
    pub blocks: nat,
    /// The number of values made.
    pub values: nat,
    /// Whether the current block has its terminator.
    pub filled: bool,
    /// The names of the variables declared, each at its number.
    pub variables: Seq<Seq<u8>>,
    /// The string literals of the compilation so far, each with its
    /// terminating zero byte.
    pub data: Seq<Seq<u8>>,
}

/// The builder after one more command.
pub open spec fn step(state: BuilderModel, command: Command) -> BuilderModel {
    BuilderModel {
        commands: state.commands.push(command),
        blocks: if command == Command::CreateBlock {
            state.blocks + 1
        } else {
            state.blocks
        },
        values: if makes_value(command) {
            state.values + 1
        } else {
            state.values
        },
        filled: match command {
            Command::SwitchToBlock { .. } => false,
            _ => state.filled || is_terminator(command),
        },
        variables: state.variables,
        data: state.data,
    }
}

/// Why a program cannot be lowered.
#[derive(Debug)]
pub enum LoweringError {
    /// A variable or a parameter is declared with the type `void`.
    VoidType,
    /// A variable is read that no `let` or parameter declares.
    UndeclaredVariable(Vec<u8>),
    /// A function is called that is neither built in nor declared.
    UndefinedFunction(Vec<u8>),
}

/// The model of a `LoweringError`.
pub ghost enum LoweringFault {
    VoidType,
    UndeclaredVariable(Seq<u8>),
    UndefinedFunction(Seq<u8>),
}

impl View for LoweringError {
    type V = LoweringFault;

    open spec fn view(&self) -> LoweringFault {
        match self {
            LoweringError::VoidType => LoweringFault::VoidType,
            LoweringError::UndeclaredVariable(name) => LoweringFault::UndeclaredVariable(name@),
            LoweringError::UndefinedFunction(name) => LoweringFault::UndefinedFunction(name@),
        }
    }
}

/// The first position at or after `from` that holds `name`.
pub open spec fn first_position(names: Seq<Seq<u8>>, name: Seq<u8>, from: int) -> Option<int>
    decreases names.len() - from,
{
    if from < 0 || from >= names.len() {
        None
    } else if names[from] == name {
        Some(from)
    } else {
        first_position(names, name, from + 1)
    }
}

/// The last position below `below` that holds `name`.
pub open spec fn last_position(names: Seq<Seq<u8>>, name: Seq<u8>, below: int) -> Option<int>
    decreases below,
{
    if below <= 0 || below > names.len() {
        None
    } else if names[below - 1] == name {
        Some(below - 1)
    } else {
        last_position(names, name, below - 1)
    }
}

/// The builder and the number of the variable called `name`, which is
/// declared with a machine type first where no variable has that name yet.
pub open spec fn with_variable(state: BuilderModel, name: Seq<u8>, machine_type: MachineType) -> (
    BuilderModel,
    int,
) {
    match first_position(state.variables, name, 0) {
        Some(i) => (state, i),
        None => {
            let variable = state.variables.len();
            let declared = step(
                state,
                Command::DeclareVariable { variable: variable as usize, machine_type },
            );
            (BuilderModel { variables: state.variables.push(name), ..declared }, variable as int)
        },
    }
}

/// The builder after the commands for a binary operator on the values `lhs`
/// and `rhs`, and the number of the value that holds the result. The integer
/// operators are one operation; the boolean ones widen both operands to eight
/// bits and compare those.
pub open spec fn lower_binary(state: BuilderModel, op: BinaryOp, lhs: nat, rhs: nat) -> (
    BuilderModel,
    nat,
) {
    match op {
        BinaryOp::BoolEqual | BinaryOp::BoolNotEqual => {
            let wide_lhs = step(state, Command::Widen { value: lhs as usize });
            let wide_rhs = step(wide_lhs, Command::Widen { value: rhs as usize });
            (
                step(
                    wide_rhs,
                    Command::Operate {
                        operation: if op == BinaryOp::BoolEqual {
                            Operation::Equal
                        } else {
                            Operation::NotEqual
                        },
                        lhs: state.values as usize,
                        rhs: wide_lhs.values as usize,
                    },
                ),
                wide_rhs.values,
            )
        },
        _ => (
            step(
                state,
                Command::Operate {
                    operation: integer_operation(op),
                    lhs: lhs as usize,
                    rhs: rhs as usize,
                },
            ),
            state.values,
        ),
    }
}

/// The operation of the generated code for an integer operator.
pub open spec fn integer_operation(op: BinaryOp) -> Operation {
    match op {
        BinaryOp::Add => Operation::Add,
        BinaryOp::Subtract => Operation::Subtract,
        BinaryOp::Multiply => Operation::Multiply,
        BinaryOp::Divide => Operation::Divide,
        BinaryOp::Equal => Operation::Equal,
        BinaryOp::NotEqual => Operation::NotEqual,
        BinaryOp::LessThanOrEqual => Operation::SignedLessThanOrEqual,
        BinaryOp::GreaterThanOrEqual => Operation::SignedGreaterThanOrEqual,
        BinaryOp::LessThan => Operation::SignedLessThan,
        BinaryOp::GreaterThan => Operation::SignedGreaterThan,
        BinaryOp::BoolEqual => Operation::Equal,
        BinaryOp::BoolNotEqual => Operation::NotEqual,
    }
}

/// The builder after the commands for an expression, and the number of the
/// value that holds its result. `functions` holds the names of the functions
/// that can be called, each at its number; of two with one name the later
/// counts.
pub open spec fn lower_node(functions: Seq<Seq<u8>>, state: BuilderModel, node: NodeModel) -> Result<
    (BuilderModel, nat),
    LoweringFault,
>
    decreases node, 0nat,
{
    match node {
        NodeModel::Int(value) => Ok((step(state, Command::IntegerConstant { value }), state.values)),
        NodeModel::Bool(value) => Ok(
            (step(state, Command::BooleanConstant { value }), state.values),
        ),
        NodeModel::StringLiteral(text) => {
            let stored = BuilderModel { data: state.data.push(text.push(0u8)), ..state };
            Ok((step(stored, Command::Symbol { data: state.data.len() as usize }), state.values))
        },
        NodeModel::Binary { op, lhs, rhs } => match lower_node(functions, state, *lhs) {
            Err(fault) => Err(fault),
            Ok((after_lhs, l)) => match lower_node(functions, after_lhs, *rhs) {
                Err(fault) => Err(fault),
                Ok((after_rhs, r)) => Ok(lower_binary(after_rhs, op, l, r)),
            },
        },
        NodeModel::Let { name, var_type, value } => match machine_type(var_type) {
            None => Err(LoweringFault::VoidType),
            Some(declared_type) => {
                let (declared, variable) = with_variable(state, name, declared_type);
                match lower_node(functions, declared, *value) {
                    Err(fault) => Err(fault),
                    Ok((after, v)) => {
                        let defined = step(
                            after,
                            Command::DefineVariable {
                                variable: variable as usize,
                                value: v as usize,
                            },
                        );
                        Ok(
                            (
                                step(defined, Command::UseVariable { variable: variable as usize }),
                                defined.values,
                            ),
                        )
                    },
                }
            },
        },
        NodeModel::Get { name } => match first_position(state.variables, name, 0) {
            None => Err(LoweringFault::UndeclaredVariable(name)),
            Some(variable) => Ok(
                (step(state, Command::UseVariable { variable: variable as usize }), state.values),
            ),
        },
        NodeModel::Function { name, args } => match lower_arguments(functions, state, args, 0) {
            Err(fault) => Err(fault),
            Ok(after) => match last_position(functions, name, functions.len() as int) {
                None => Err(LoweringFault::UndefinedFunction(name)),
                Some(function) => Ok(
                    (
                        step(
                            after,
                            Command::Call {
                                function: function as usize,
                                arguments: args.len() as usize,
                            },
                        ),
                        after.values,
                    ),
                ),
            },
        },
    }
}

/// The builder after the commands for the arguments of a call from position
/// `from` on: each is evaluated and then added to the arguments of the call.
pub open spec fn lower_arguments(
    functions: Seq<Seq<u8>>,
    state: BuilderModel,
    args: Seq<NodeModel>,
    from: int,
) -> Result<BuilderModel, LoweringFault>
    decreases args, args.len() - from,
{
    if from < 0 || from >= args.len() {
        Ok(state)
    } else {
        match lower_node(functions, state, args[from]) {
            Err(fault) => Err(fault),
            Ok((after, v)) => lower_arguments(
                functions,
                step(after, Command::Argument { value: v as usize }),
                args,
                from + 1,
            ),
        }
    }
}

/// The builder after a jump to `block`, where the current block has no
/// terminator yet; else the builder as it is.
pub open spec fn close_with_jump(state: BuilderModel, block: nat) -> BuilderModel {
    if state.filled {
        state
    } else {
        step(state, Command::Jump { block: block as usize })
    }
}

/// The builder after the commands for the statements from position `from` on.
/// What follows a statement after which the current block has its terminator
/// is left out.
pub open spec fn lower_statements(
    functions: Seq<Seq<u8>>,
    state: BuilderModel,
    statements: Seq<StatementModel>,
    from: int,
) -> Result<BuilderModel, LoweringFault>
    decreases statements, statements.len() - from,
{
    if from < 0 || from >= statements.len() || state.filled {
        Ok(state)
    } else {
        match lower_statement(functions, state, statements[from]) {
            Err(fault) => Err(fault),
            Ok(after) => lower_statements(functions, after, statements, from + 1),
        }
    }
}

/// The builder after the commands for one statement.
pub open spec fn lower_statement(
    functions: Seq<Seq<u8>>,
    state: BuilderModel,
    statement: StatementModel,
) -> Result<BuilderModel, LoweringFault>
    decreases statement, 0nat,
{
    match statement {
        StatementModel::Node(node) => match lower_node(functions, state, node) {
            Err(fault) => Err(fault),
            Ok((after, _)) => Ok(after),
        },
        StatementModel::Return(node) => match lower_node(functions, state, node) {
            Err(fault) => Err(fault),
            Ok((after, v)) => Ok(step(after, Command::Return { value: v as usize })),
        },
        StatementModel::If { condition, branch, else_branch } => match lower_node(
            functions,
            state,
            condition,
        ) {
            Err(fault) => Err(fault),
            Ok((tested, v)) => {
                let then_block = tested.blocks;
                let branched = step(
                    step(tested, Command::CreateBlock),
                    Command::BranchIfNonZero { condition: v as usize, block: then_block as usize },
                );
                let else_block = branched.blocks;
                let in_else = step(
                    step(
                        step(branched, Command::CreateBlock),
                        Command::Jump { block: else_block as usize },
                    ),
                    Command::SwitchToBlock { block: else_block as usize },
                );
                match lower_statements(functions, in_else, else_branch, 0) {
                    Err(fault) => Err(fault),
                    Ok(after_else) => {
                        let after_block = after_else.blocks;
                        let else_done = if after_else.filled {
                            after_else
                        } else {
                            step(
                                step(after_else, Command::CreateBlock),
                                Command::Jump { block: after_block as usize },
                            )
                        };
                        let in_then = step(
                            else_done,
                            Command::SwitchToBlock { block: then_block as usize },
                        );
                        match lower_statements(functions, in_then, branch, 0) {
                            Err(fault) => Err(fault),
                            Ok(after_then) => if !after_else.filled {
                                Ok(
                                    step(
                                        close_with_jump(after_then, after_block),
                                        Command::SwitchToBlock { block: after_block as usize },
                                    ),
                                )
                            } else if after_then.filled {
                                Ok(after_then)
                            } else {
                                let late_block = after_then.blocks;
                                Ok(
                                    step(
                                        step(
                                            step(after_then, Command::CreateBlock),
                                            Command::Jump { block: late_block as usize },
                                        ),
                                        Command::SwitchToBlock { block: late_block as usize },
                                    ),
                                )
                            },
                        }
                    },
                }
            },
        },
        StatementModel::While { condition, loop_statements } => {
            let test_block = state.blocks;
            let loop_block = test_block + 1;
            let after_block = test_block + 2;
            let in_test = step(
                step(
                    step(
                        step(
                            step(state, Command::CreateBlock),
                            Command::Jump { block: test_block as usize },
                        ),
                        Command::CreateBlock,
                    ),
                    Command::CreateBlock,
                ),
                Command::SwitchToBlock { block: test_block as usize },
            );
            match lower_node(functions, in_test, condition) {
                Err(fault) => Err(fault),
                Ok((tested, v)) => {
                    let in_loop = step(
                        step(
                            step(
                                tested,
                                Command::BranchIfNonZero {
                                    condition: v as usize,
                                    block: loop_block as usize,
                                },
                            ),
                            Command::Jump { block: after_block as usize },
                        ),
                        Command::SwitchToBlock { block: loop_block as usize },
                    );
                    match lower_statements(functions, in_loop, loop_statements, 0) {
                        Err(fault) => Err(fault),
                        Ok(after_body) => Ok(
                            step(
                                close_with_jump(after_body, test_block),
                                Command::SwitchToBlock { block: after_block as usize },
                            ),
                        ),
                    }
                },
            }
        },
        StatementModel::InfiniteLoop(body) => {
            let loop_block = state.blocks;
            let in_loop = step(
                step(
                    step(state, Command::CreateBlock),
                    Command::Jump { block: loop_block as usize },
                ),
                Command::SwitchToBlock { block: loop_block as usize },
            );
            match lower_statements(functions, in_loop, body, 0) {
                Err(fault) => Err(fault),
                Ok(after_body) => Ok(close_with_jump(after_body, loop_block)),
            }
        },
    }
}

/// The byte strings of a list, in order.
pub open spec fn names_view(names: Seq<Vec<u8>>) -> Seq<Seq<u8>> {
    Seq::new(names.len(), |i: int| names[i]@)
}

fn find_first(names: &Vec<Vec<u8>>, name: &Vec<u8>) -> (r: Option<usize>)
    ensures
        match r {
            Some(i) => i < names.len() && first_position(names_view(names@), name@, 0) == Some(
                i as int,
            ),
            None => first_position(names_view(names@), name@, 0) is None,
        },
{
    let mut i: usize = 0;
    while i < names.len()
        invariant
            i <= names.len(),
            first_position(names_view(names@), name@, 0) == first_position(
                names_view(names@),
                name@,
                i as int,
            ),
        decreases names.len() - i,
    {
        if bytes_eq(&names[i], name) {
            return Some(i);
        }
        i = i + 1;
    }
    None
}

/// The number of the function called `name`: the last position that holds it.
pub fn find_last(names: &Vec<Vec<u8>>, name: &Vec<u8>) -> (r: Option<usize>)
    ensures
        match r {
            Some(i) => i < names.len() && last_position(
                names_view(names@),
                name@,
                names.len() as int,
            ) == Some(i as int),
            None => last_position(names_view(names@), name@, names.len() as int) is None,
        },
{
    let mut i: usize = names.len();
    while i > 0
        invariant
            i <= names.len(),
            last_position(names_view(names@), name@, names.len() as int) == last_position(
                names_view(names@),
                name@,
                i as int,
            ),
        decreases i,
    {
        i = i - 1;
        if bytes_eq(&names[i], name) {
            return Some(i);
        }
    }
    None
}

fn operation_of(op: BinaryOp) -> (r: Operation)
    ensures
        r == integer_operation(op),
{
    match op {
        BinaryOp::Add => Operation::Add,
        BinaryOp::Subtract => Operation::Subtract,
        BinaryOp::Multiply => Operation::Multiply,
        BinaryOp::Divide => Operation::Divide,
        BinaryOp::Equal => Operation::Equal,
        BinaryOp::NotEqual => Operation::NotEqual,
        BinaryOp::LessThanOrEqual => Operation::SignedLessThanOrEqual,
        BinaryOp::GreaterThanOrEqual => Operation::SignedGreaterThanOrEqual,
        BinaryOp::LessThan => Operation::SignedLessThan,
        BinaryOp::GreaterThan => Operation::SignedGreaterThan,
        BinaryOp::BoolEqual => Operation::Equal,
        BinaryOp::BoolNotEqual => Operation::NotEqual,
    }
}

/// Whether a builder that has, or has not, a terminator in its current block
/// can take a command.
pub open spec fn takes(filled: bool, command: Command) -> bool {
    match command {
        Command::CreateBlock => true,
        Command::AppendParameters { .. } => true,
        Command::DeclareVariable { .. } => true,
        Command::SwitchToBlock { .. } => filled,
        _ => !filled,
    }
}

/// Whether what lowering an expression returned, and the builder after it,
/// are what the model expects.
pub open spec fn node_lowered(
    r: Result<usize, LoweringError>,
    state: BuilderModel,
    expected: Result<(BuilderModel, nat), LoweringFault>,
) -> bool {
    match expected {
        Ok((model, value)) => match r {
            Ok(v) => v == value && state == model,
            Err(_) => false,
        },
        Err(fault) => match r {
            Ok(_) => false,
            Err(e) => e@ == fault,
        },
    }
}

/// Whether what lowering statements returned, and the builder after it, are
/// what the model expects.
pub open spec fn statements_lowered(
    r: Result<(), LoweringError>,
    state: BuilderModel,
    expected: Result<BuilderModel, LoweringFault>,
) -> bool {
    match expected {
        Ok(model) => match r {
            Ok(_) => state == model,
            Err(_) => false,
        },
        Err(fault) => match r {
            Ok(_) => false,
            Err(e) => e@ == fault,
        },
    }
}

/// The builder of one function: the commands so far and what the next ones
/// depend on.
pub struct BuildState<'a> {
    pub commands: Vec<Command>,
    pub blocks: usize,
    pub values: usize,
    pub filled: bool,
    pub variables: Vec<Vec<u8>>,
    pub data: Vec<Vec<u8>>,
    pub functions: &'a Vec<Vec<u8>>,
    /// The number of arguments added that no call has taken yet.
    pub arguments: usize,
    /// The number of string literals that the commands need.
    pub literals: usize,
}

impl<'a> View for BuildState<'a> {
    type V = BuilderModel;

    open spec fn view(&self) -> BuilderModel {
        BuilderModel {
            commands: self.commands@,
            blocks: self.blocks as nat,
            values: self.values as nat,
            filled: self.filled,
            variables: names_view(self.variables@),
            data: names_view(self.data@),
        }
    }
}

impl<'a> BuildState<'a> {
    /// The builder counts what its commands made, and its commands keep the
    /// rules of a builder.
    pub open spec fn wf(&self) -> bool {
        &&& self.blocks <= self.commands.len()
        &&& self.values <= self.commands.len()
        &&& self.arguments <= self.commands.len()
        &&& self.literals <= self.data.len()
        &&& filled_after(self.commands@) == Some(self.filled)
        &&& scope_after(self.commands@, self.functions.len() as nat) == Some(self.scope())
    }

    /// What the commands so far have made.
    pub open spec fn scope(&self) -> Scope {
        Scope {
            blocks: self.blocks as nat,
            values: self.values as nat,
            variables: self.variables.len() as nat,
            arguments: self.arguments as nat,
            literals: self.literals as nat,
        }
    }

    /// The names of the functions that can be called.
    pub open spec fn table(&self) -> Seq<Seq<u8>> {
        names_view(self.functions@)
    }

    /// A builder without commands. `data` holds the string literals of the
    /// compilation so far.
    pub fn new(functions: &'a Vec<Vec<u8>>, data: Vec<Vec<u8>>) -> (r: Self)
        ensures
            r.wf(),
            r.functions == functions,
            r.data == data,
            r.arguments == 0,
            r@ == (BuilderModel {
                commands: Seq::empty(),
                blocks: 0,
                values: 0,
                filled: true,
                variables: Seq::empty(),
                data: names_view(data@),
            }),
    {
        let r = BuildState {
            commands: Vec::new(),
            blocks: 0,
            values: 0,
            filled: true,
            variables: Vec::new(),
            data,
            functions,
            arguments: 0,
            literals: 0,
        };
        assert(names_view(r.variables@) =~= Seq::empty());
        r
    }

    /// Whether the builder can take a command: the command keeps the rules of
    /// a builder, refers to what is in scope, and is no declaration of a
    /// variable or use of a string literal, which have functions of their
    /// own.
    pub open spec fn accepts(&self, command: Command) -> bool {
        &&& takes(self.filled, command)
        &&& in_scope(command, self.scope(), self.functions.len() as nat)
        &&& !(command is DeclareVariable)
        &&& !(command is Symbol)
    }

    /// Adds a command.
    pub fn emit(&mut self, command: Command)
        requires
            old(self).wf(),
            old(self).accepts(command),
        ensures
            final(self).wf(),
            final(self).functions == old(self).functions,
            final(self).data.len() == old(self).data.len(),
            final(self)@ == step(old(self)@, command),
            final(self).scope() == widen_scope(old(self).scope(), command),
    {
        self.commands.push(command);
        let made: usize = self.commands.len();
        assert(self.commands@.drop_last() =~= old(self).commands@);
        match command {
            Command::CreateBlock => {
                self.blocks = self.blocks + 1;
            },
            Command::SwitchToBlock { .. } => {
                self.filled = false;
            },
            Command::Jump { .. } | Command::Return { .. } | Command::ReturnNothing => {
                self.filled = true;
            },
            Command::Argument { .. } => {
                self.arguments = self.arguments + 1;
            },
            Command::Call { arguments, .. } => {
                self.values = self.values + 1;
                self.arguments = self.arguments - arguments;
            },
            Command::UseVariable { .. }
            | Command::IntegerConstant { .. }
            | Command::BooleanConstant { .. }
            | Command::Operate { .. }
            | Command::Widen { .. } => {
                self.values = self.values + 1;
            },
            _ => {},
        }
    }

    /// Declares the variable with the next free number under `name`.
    fn declare(&mut self, name: Vec<u8>, machine_type: MachineType) -> (r: usize)
        requires
            old(self).wf(),
        ensures
            final(self).wf(),
            final(self).functions == old(self).functions,
            final(self).filled == old(self).filled,
            final(self).data.len() == old(self).data.len(),
            r == old(self).variables.len(),
            final(self)@ == (BuilderModel {
                variables: old(self)@.variables.push(name@),
                ..step(old(self)@, Command::DeclareVariable { variable: r, machine_type })
            }),
            final(self).scope() == widen_scope(
                old(self).scope(),
                Command::DeclareVariable { variable: r, machine_type },
            ),
    {
        let variable: usize = self.variables.len();
        self.commands.push(Command::DeclareVariable { variable, machine_type });
        let made: usize = self.commands.len();
        assert(self.commands@.drop_last() =~= old(self).commands@);
        self.variables.push(name);
        assert(names_view(self.variables@) =~= names_view(old(self).variables@).push(name@));
        variable
    }

    /// Stores a string literal, with its terminating zero byte, and makes the
    /// value that is its address.
    fn literal(&mut self, text: &Vec<u8>) -> (r: usize)
        requires
            old(self).wf(),
            !old(self).filled,
        ensures
            final(self).wf(),
            !final(self).filled,
            final(self).functions == old(self).functions,
            r == old(self).values,
            final(self).arguments == old(self).arguments,
            final(self).blocks == old(self).blocks,
            final(self).variables@.len() == old(self).variables@.len(),
            final(self).data.len() == old(self).data.len() + 1,
            final(self)@ == step(
                BuilderModel { data: old(self)@.data.push(text@.push(0u8)), ..old(self)@ },
                Command::Symbol { data: old(self).data.len() },
            ),
            final(self).scope() == widen_scope(
                old(self).scope(),
                Command::Symbol { data: old(self).data.len() },
            ),
    {
        let mut bytes = copy_bytes(text);
        bytes.push(0u8);
        let data: usize = self.data.len();
        self.data.push(bytes);
        let stored: usize = self.data.len();
        assert(names_view(self.data@) =~= names_view(old(self).data@).push(text@.push(0u8)));
        let result: usize = self.values;
        self.commands.push(Command::Symbol { data });
        let made: usize = self.commands.len();
        assert(self.commands@.drop_last() =~= old(self).commands@);
        self.values = self.values + 1;
        self.literals = stored;
        result
    }

    /// The number of the variable called `name`, which is declared first
    /// where no variable has that name yet.
    pub fn get_new_variable(&mut self, name: Vec<u8>, var_type: MachineType) -> (r: usize)
        requires
            old(self).wf(),
        ensures
            final(self).wf(),
            final(self).functions == old(self).functions,
            final(self).filled == old(self).filled,
            final(self).arguments == old(self).arguments,
            final(self).data.len() == old(self).data.len(),
            final(self).blocks == old(self).blocks,
            final(self).values == old(self).values,
            old(self).variables.len() <= final(self).variables.len(),
            r < final(self).variables.len(),
            (final(self)@, r as int) == with_variable(old(self)@, name@, var_type),
    {
        match find_first(&self.variables, &name) {
            Some(i) => i,
            None => self.declare(name, var_type),
        }
    }

    fn build_operation(&mut self, op: BinaryOp, lhs: usize, rhs: usize) -> (r: usize)
        requires
            old(self).wf(),
            !old(self).filled,
            lhs < old(self).values,
            rhs < old(self).values,
        ensures
            final(self).wf(),
            !final(self).filled,
            final(self).functions == old(self).functions,
            final(self).arguments == old(self).arguments,
            final(self).data.len() == old(self).data.len(),
            final(self).blocks == old(self).blocks,
            final(self).variables@.len() == old(self).variables@.len(),
            old(self).values <= final(self).values,
            r < final(self).values,
            (final(self)@, r as nat) == lower_binary(old(self)@, op, lhs as nat, rhs as nat),
    {
        match op {
            BinaryOp::BoolEqual | BinaryOp::BoolNotEqual => {
                let wide_lhs: usize = self.values;
                self.emit(Command::Widen { value: lhs });
                let wide_rhs: usize = self.values;
                self.emit(Command::Widen { value: rhs });
                let result: usize = self.values;
                let operation = match op {
                    BinaryOp::BoolEqual => Operation::Equal,
                    _ => Operation::NotEqual,
                };
                self.emit(Command::Operate { operation, lhs: wide_lhs, rhs: wide_rhs });
                result
            },
            _ => {
                let result: usize = self.values;
                self.emit(Command::Operate { operation: operation_of(op), lhs, rhs });
                result
            },
        }
    }

    /// Lowers an expression and returns the number of the value that holds
    /// its result.
    #[verifier::loop_isolation(false)]
    pub fn build_node(&mut self, node: &Node) -> (r: Result<usize, LoweringError>)
        requires
            old(self).wf(),
            !old(self).filled,
        ensures
            final(self).functions == old(self).functions,
            r is Ok ==> final(self).wf() && !final(self).filled,
            r is Ok ==> final(self).arguments == old(self).arguments,
            r is Ok ==> old(self).data.len() <= final(self).data.len(),
            r is Ok ==> final(self).blocks == old(self).blocks,
            r is Ok ==> old(self).values <= final(self).values && old(self).variables@.len()
                <= final(self).variables@.len(),
            r matches Ok(v) ==> v < final(self).values,
            node_lowered(r, final(self)@, lower_node(old(self).table(), old(self)@, node@)),
        decreases *node, 0nat,
    {
        match node {
            Node::Int(value) => {
                let result: usize = self.values;
                self.emit(Command::IntegerConstant { value: *value });
                Ok(result)
            },
            Node::Bool(value) => {
                let result: usize = self.values;
                self.emit(Command::BooleanConstant { value: *value });
                Ok(result)
            },
            Node::StringLiteral(text) => Ok(self.literal(text)),
            Node::Let { name, var_type, value } => {
                let declared_type = match deabstract(var_type) {
                    None => {
                        return Err(LoweringError::VoidType);
                    },
                    Some(t) => t,
                };
                let variable = self.get_new_variable(copy_bytes(name), declared_type);
                let v = self.build_node(value)?;
                self.emit(Command::DefineVariable { variable, value: v });
                let result: usize = self.values;
                self.emit(Command::UseVariable { variable });
                Ok(result)
            },
            Node::Get { name } => match find_first(&self.variables, name) {
                None => Err(LoweringError::UndeclaredVariable(copy_bytes(name))),
                Some(variable) => {
                    let result: usize = self.values;
                    self.emit(Command::UseVariable { variable });
                    Ok(result)
                },
            },
            Node::Function { name, args } => {
                proof {
                    lemma_call_model(*name, *args);
                }
                let ghost models = nodes_view(args@);
                let ghost expected = lower_arguments(self.table(), self@, models, 0);
                let mut i: usize = 0;
                while i < args.len()
                    invariant
                        i <= args.len(),
                        self.wf(),
                        !self.filled,
                        self.functions == old(self).functions,
                        self.arguments == old(self).arguments + i,
                        self.blocks == old(self).blocks,
                        old(self).data.len() <= self.data.len(),
                        old(self).values <= self.values,
                        old(self).variables@.len() <= self.variables@.len(),
                        models == nodes_view(args@),
                        expected == lower_arguments(self.table(), self@, models, i as int),
                    decreases args.len() - i,
                {
                    let v = self.build_node(&args[i])?;
                    self.emit(Command::Argument { value: v });
                    i = i + 1;
                }
                match find_last(self.functions, name) {
                    None => Err(LoweringError::UndefinedFunction(copy_bytes(name))),
                    Some(function) => {
                        let result: usize = self.values;
                        self.emit(Command::Call { function, arguments: args.len() });
                        Ok(result)
                    },
                }
            },
            _ => {
                let (op, lhs, rhs) = operands(node);
                let l = self.build_node(lhs)?;
                let r = self.build_node(rhs)?;
                Ok(self.build_operation(op, l, r))
            },
        }
    }

    fn close_with_jump(&mut self, block: usize)
        requires
            old(self).wf(),
            block < old(self).blocks,
        ensures
            final(self).wf(),
            final(self).filled,
            final(self).functions == old(self).functions,
            final(self).arguments == old(self).arguments,
            final(self).data.len() == old(self).data.len(),
            final(self).blocks == old(self).blocks,
            final(self)@ == close_with_jump(old(self)@, block as nat),
    {
        if !self.filled {
            self.emit(Command::Jump { block });
        }
    }

    /// Lowers statements in order. What follows a statement after which the
    /// current block has its terminator is left out.
    #[verifier::loop_isolation(false)]
    pub fn build_statements(&mut self, statements: &Vec<Statement>) -> (r: Result<
        (),
        LoweringError,
    >)
        requires
            old(self).wf(),
        ensures
            final(self).functions == old(self).functions,
            r is Ok ==> final(self).wf(),
            r is Ok ==> final(self).arguments == old(self).arguments && old(self).blocks
                <= final(self).blocks && old(self).data.len() <= final(self).data.len(),
            statements_lowered(
                r,
                final(self)@,
                lower_statements(old(self).table(), old(self)@, statements_view(statements@), 0),
            ),
        decreases *statements, 2nat,
    {
        let ghost models = statements_view(statements@);
        let ghost expected = lower_statements(self.table(), self@, models, 0);
        let mut i: usize = 0;
        while i < statements.len() && !self.filled
            invariant
                i <= statements.len(),
                self.wf(),
                self.functions == old(self).functions,
                self.arguments == old(self).arguments,
                old(self).blocks <= self.blocks,
                old(self).data.len() <= self.data.len(),
                models == statements_view(statements@),
                expected == lower_statements(self.table(), self@, models, i as int),
            decreases statements.len() - i,
        {
            self.build_statement(&statements[i])?;
            i = i + 1;
        }
        Ok(())
    }

    /// Lowers one statement.
    pub fn build_statement(&mut self, statement: &Statement) -> (r: Result<(), LoweringError>)
        requires
            old(self).wf(),
            !old(self).filled,
        ensures
            final(self).functions == old(self).functions,
            r is Ok ==> final(self).wf(),
            r is Ok ==> final(self).arguments == old(self).arguments && old(self).blocks
                <= final(self).blocks && old(self).data.len() <= final(self).data.len(),
            statements_lowered(
                r,
                final(self)@,
                lower_statement(old(self).table(), old(self)@, statement@),
            ),
        decreases *statement, 1nat,
    {
        match statement {
            Statement::Node(node) => {
                self.build_node(node)?;
                Ok(())
            },
            Statement::Return(node) => {
                let value = self.build_node(node)?;
                self.emit(Command::Return { value });
                Ok(())
            },
            Statement::If { .. } => self.build_if(statement),
            Statement::While { .. } => self.build_while(statement),
            Statement::InfiniteLoop(_) => self.build_loop(statement),
        }
    }

    /// Lowers an `if`: the else branch first, then the branch, and after them a
    /// block of its own where one of the two leaves its block open.
    fn build_if(&mut self, statement: &Statement) -> (r: Result<(), LoweringError>)
        requires
            old(self).wf(),
            !old(self).filled,
            statement is If,
        ensures
            final(self).functions == old(self).functions,
            r is Ok ==> final(self).wf(),
            r is Ok ==> final(self).arguments == old(self).arguments && old(self).blocks
                <= final(self).blocks && old(self).data.len() <= final(self).data.len(),
            statements_lowered(
                r,
                final(self)@,
                lower_statement(old(self).table(), old(self)@, statement@),
            ),
        decreases *statement, 0nat,
    {
        match statement {
            Statement::If { condition, branch, else_branch } => {
                proof {
                    lemma_if_model(*condition, *branch, *else_branch);
                }
                let v = self.build_node(condition)?;
                let then_block: usize = self.blocks;
                self.emit(Command::CreateBlock);
                self.emit(Command::BranchIfNonZero { condition: v, block: then_block });
                let else_block: usize = self.blocks;
                self.emit(Command::CreateBlock);
                self.emit(Command::Jump { block: else_block });
                self.emit(Command::SwitchToBlock { block: else_block });
                self.build_statements(else_branch)?;
                let else_filled = self.filled;
                let after_block: usize = self.blocks;
                if !else_filled {
                    self.emit(Command::CreateBlock);
                    self.emit(Command::Jump { block: after_block });
                }
                self.emit(Command::SwitchToBlock { block: then_block });
                self.build_statements(branch)?;
                if !else_filled {
                    self.close_with_jump(after_block);
                    self.emit(Command::SwitchToBlock { block: after_block });
                } else if !self.filled {
                    let late_block: usize = self.blocks;
                    self.emit(Command::CreateBlock);
                    self.emit(Command::Jump { block: late_block });
                    self.emit(Command::SwitchToBlock { block: late_block });
                }
                Ok(())
            },
            _ => vstd::pervasive::unreached(),
        }
    }

    /// Lowers a `while`: a block for the test, one for the body, one for what
    /// follows.
    fn build_while(&mut self, statement: &Statement) -> (r: Result<(), LoweringError>)
        requires
            old(self).wf(),
            !old(self).filled,
            statement is While,
        ensures
            final(self).functions == old(self).functions,
            r is Ok ==> final(self).wf(),
            r is Ok ==> final(self).arguments == old(self).arguments && old(self).blocks
                <= final(self).blocks && old(self).data.len() <= final(self).data.len(),
            statements_lowered(
                r,
                final(self)@,
                lower_statement(old(self).table(), old(self)@, statement@),
            ),
        decreases *statement, 0nat,
    {
        match statement {
            Statement::While { condition, loop_statements } => {
                proof {
                    lemma_while_model(*condition, *loop_statements);
                }
                let test_block: usize = self.blocks;
                self.emit(Command::CreateBlock);
                self.emit(Command::Jump { block: test_block });
                let loop_block: usize = self.blocks;
                self.emit(Command::CreateBlock);
                let after_block: usize = self.blocks;
                self.emit(Command::CreateBlock);
                self.emit(Command::SwitchToBlock { block: test_block });
                let v = self.build_node(condition)?;
                self.emit(Command::BranchIfNonZero { condition: v, block: loop_block });
                self.emit(Command::Jump { block: after_block });
                self.emit(Command::SwitchToBlock { block: loop_block });
                self.build_statements(loop_statements)?;
                self.close_with_jump(test_block);
                self.emit(Command::SwitchToBlock { block: after_block });
                Ok(())
            },
            _ => vstd::pervasive::unreached(),
        }
    }

    /// Lowers a `loop`: one block, which jumps back to itself.
    fn build_loop(&mut self, statement: &Statement) -> (r: Result<(), LoweringError>)
        requires
            old(self).wf(),
            !old(self).filled,
            statement is InfiniteLoop,
        ensures
            final(self).functions == old(self).functions,
            r is Ok ==> final(self).wf(),
            r is Ok ==> final(self).arguments == old(self).arguments && old(self).blocks
                <= final(self).blocks && old(self).data.len() <= final(self).data.len(),
            statements_lowered(
                r,
                final(self)@,
                lower_statement(old(self).table(), old(self)@, statement@),
            ),
        decreases *statement, 0nat,
    {
        match statement {
            Statement::InfiniteLoop(body) => {
                proof {
                    lemma_loop_model(*body);
                }
                let loop_block: usize = self.blocks;
                self.emit(Command::CreateBlock);
                self.emit(Command::Jump { block: loop_block });
                self.emit(Command::SwitchToBlock { block: loop_block });
                self.build_statements(body)?;
                self.close_with_jump(loop_block);
                Ok(())
            },
            _ => vstd::pervasive::unreached(),
        }
    }
}

} // verus!
