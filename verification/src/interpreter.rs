//! The tree-walking interpreter: the meaning of a program as a mathematical
//! function, and the evaluator that computes it.
//!
//! Variables belong to the call of a function, not to a block: a `let` inside
//! an `if` or a loop binds the variable of the enclosing function, or binds
//! it anew, whatever type it had before. A function sees its parameters and
//! what it binds itself, and nothing of its caller.
//!
//! Arithmetic is checked. A call is resolved against the built-ins first,
//! then against the functions of the program, and takes as many arguments as
//! the callee has parameters.
//!
//! An evaluation has fuel, which bounds its depth, so that an evaluator that
//! always ends can compute it. The fuel decides only whether a run ends:
//! what a run gives with some fuel it gives with more.

use crate::node::{
    AbstractType, BinaryOp, Definition, DefinitionModel, FileDescription, FunctionInfo,
    FunctionModel, Node, NodeModel, ProgramModel, Statement, StatementModel, binary,
    definitions_view, functions_view, lemma_call_model, lemma_if_model, lemma_loop_model,
    lemma_while_model, nodes_view, operands, statements_view,
};
use crate::stdlib::{Builtin, builtin_named, find_builtin};
use crate::text::{append_bytes, append_text, bytes_eq, copy_bytes, decimal, push_decimal};
use vstd::prelude::*;
use vstd::string::StringSliceAdditionalSpecFns;
use vstd::utf8::{decode_utf8, valid_utf8};

verus! {

/// The budget of evaluation steps of `interpret`. A program that needs more
/// steps than any machine performs in a lifetime is stopped with `StepLimit`.
pub const STEP_LIMIT: u64 = 0xffff_ffff_ffff_ffff;

/// Why a run ended without a result.
#[derive(Debug)]
pub enum RuntimeResult {
    TypeError(&'static str),
    IncorrectArgumentNumber,
    UndefinedVariable(Vec<u8>),
    UndefinedFunction(Vec<u8>),
    AdditionOverflow,
    SubtractionOverflow,
    MultiplicationOverflow,
    DivisionError,
    Panic,
    /// The budget of evaluation steps was used up.
    StepLimit,
}

/// The model of a `RuntimeResult`.
pub ghost enum Fault {
    TypeError(Seq<char>),
    IncorrectArgumentNumber,
    UndefinedVariable(Seq<u8>),
    UndefinedFunction(Seq<u8>),
    AdditionOverflow,
    SubtractionOverflow,
    MultiplicationOverflow,
    DivisionError,
    Panic,
    StepLimit,
}

impl View for RuntimeResult {
    type V = Fault;

    open spec fn view(&self) -> Fault {
        match self {
            RuntimeResult::TypeError(message) => Fault::TypeError(message@),
            RuntimeResult::IncorrectArgumentNumber => Fault::IncorrectArgumentNumber,
            RuntimeResult::UndefinedVariable(name) => Fault::UndefinedVariable(name@),
            RuntimeResult::UndefinedFunction(name) => Fault::UndefinedFunction(name@),
            RuntimeResult::AdditionOverflow => Fault::AdditionOverflow,
            RuntimeResult::SubtractionOverflow => Fault::SubtractionOverflow,
            RuntimeResult::MultiplicationOverflow => Fault::MultiplicationOverflow,
            RuntimeResult::DivisionError => Fault::DivisionError,
            RuntimeResult::Panic => Fault::Panic,
            RuntimeResult::StepLimit => Fault::StepLimit,
        }
    }
}

/// A value at run time. `Void` is what a function without a `return` yields.
#[derive(Debug, Clone)]
pub enum Value {
    Integer(i32),
    Boolean(bool),
    String(Vec<u8>),
    Void,
}

/// The model of a `Value`.
pub ghost enum ValueModel {
    Integer(i32),
    Boolean(bool),
    String(Seq<u8>),
    Void,
}

impl View for Value {
    type V = ValueModel;

    open spec fn view(&self) -> ValueModel {
        match self {
            Value::Integer(v) => ValueModel::Integer(*v),
            Value::Boolean(v) => ValueModel::Boolean(*v),
            Value::String(v) => ValueModel::String(v@),
            Value::Void => ValueModel::Void,
        }
    }
}

/// The type of a value.
pub open spec fn type_of(value: ValueModel) -> AbstractType {
    match value {
        ValueModel::Integer(_) => AbstractType::Integer,
        ValueModel::Boolean(_) => AbstractType::Boolean,
        ValueModel::String(_) => AbstractType::String,
        ValueModel::Void => AbstractType::Void,
    }
}

impl Value {
    pub fn to_abstract(&self) -> (r: AbstractType)
        ensures
            r == type_of(self@),
    {
        match self {
            Value::Integer(_) => AbstractType::Integer,
            Value::Boolean(_) => AbstractType::Boolean,
            Value::String(_) => AbstractType::String,
            Value::Void => AbstractType::Void,
        }
    }
}

fn copy_value(value: &Value) -> (r: Value)
    ensures
        r@ == value@,
{
    match value {
        Value::Integer(v) => Value::Integer(*v),
        Value::Boolean(v) => Value::Boolean(*v),
        Value::String(v) => Value::String(copy_bytes(v)),
        Value::Void => Value::Void,
    }
}

/// The variables of one function call, in the order in which they were first
/// bound. No name occurs twice where every binding was made with `bind`.
pub type Variables = Seq<(Seq<u8>, ValueModel)>;

/// What a running program has: the variables of the current call and the
/// output written so far.
pub ghost struct Machine {
    pub variables: Variables,
    pub output: Seq<u8>,
}

/// The first position at or after `from` that binds `name`.
pub open spec fn position_from(variables: Variables, name: Seq<u8>, from: int) -> Option<int>
    decreases variables.len() - from,
{
    if from < 0 || from >= variables.len() {
        None
    } else if variables[from].0 == name {
        Some(from)
    } else {
        position_from(variables, name, from + 1)
    }
}

/// The value bound to `name`, if any.
pub open spec fn lookup(variables: Variables, name: Seq<u8>) -> Option<ValueModel> {
    match position_from(variables, name, 0) {
        Some(i) => Some(variables[i].1),
        None => None,
    }
}

/// The variables after `name` was bound to `value`: a binding of that name is
/// replaced, else a new one is added at the end.
pub open spec fn bind(variables: Variables, name: Seq<u8>, value: ValueModel) -> Variables {
    match position_from(variables, name, 0) {
        Some(i) => variables.update(i, (name, value)),
        None => variables.push((name, value)),
    }
}

/// The last position below `below` of a function called `name`.
pub open spec fn function_position(
    functions: Seq<(Seq<u8>, FunctionModel)>,
    name: Seq<u8>,
    below: int,
) -> Option<int>
    decreases below,
{
    if below <= 0 || below > functions.len() {
        None
    } else if functions[below - 1].0 == name {
        Some(below - 1)
    } else {
        function_position(functions, name, below - 1)
    }
}

/// The function that `name` stands for: the last one declared under it.
pub open spec fn find_function(functions: Seq<(Seq<u8>, FunctionModel)>, name: Seq<u8>) -> Option<
    FunctionModel,
> {
    match function_position(functions, name, functions.len() as int) {
        Some(i) => Some(functions[i].1),
        None => None,
    }
}

/// The quotient of two integers, rounded towards zero.
pub open spec fn quotient(x: int, d: int) -> int
    recommends
        d != 0,
{
    if x >= 0 && d > 0 {
        x / d
    } else if x < 0 && d < 0 {
        (-x) / (-d)
    } else if x < 0 {
        -((-x) / d)
    } else {
        -(x / (-d))
    }
}

/// A length as a 32-bit signed integer, wrapping round.
pub open spec fn wrap_length(n: nat) -> i32 {
    let low = n % 0x1_0000_0000;
    if low < 0x8000_0000 {
        low as i32
    } else {
        (low - 0x1_0000_0000) as i32
    }
}

/// What a two-operand operator gives for two values: arithmetic is checked,
/// and an operand of the wrong type is a type error.
pub open spec fn binary_result(op: BinaryOp, l: ValueModel, r: ValueModel) -> Result<
    ValueModel,
    Fault,
> {
    match op {
        BinaryOp::Add => match (l, r) {
            (ValueModel::Integer(a), ValueModel::Integer(b)) => if i32::MIN <= a + b <= i32::MAX {
                Ok(ValueModel::Integer((a + b) as i32))
            } else {
                Err(Fault::AdditionOverflow)
            },
            _ => Err(Fault::TypeError("cannot add non-integers"@)),
        },
        BinaryOp::Subtract => match (l, r) {
            (ValueModel::Integer(a), ValueModel::Integer(b)) => if i32::MIN <= a - b <= i32::MAX {
                Ok(ValueModel::Integer((a - b) as i32))
            } else {
                Err(Fault::SubtractionOverflow)
            },
            _ => Err(Fault::TypeError("cannot subtract non-integers"@)),
        },
        BinaryOp::Multiply => match (l, r) {
            (ValueModel::Integer(a), ValueModel::Integer(b)) => if i32::MIN <= a * b <= i32::MAX {
                Ok(ValueModel::Integer((a * b) as i32))
            } else {
                Err(Fault::MultiplicationOverflow)
            },
            _ => Err(Fault::TypeError("cannot multiply non-integers"@)),
        },
        BinaryOp::Divide => match (l, r) {
            (ValueModel::Integer(a), ValueModel::Integer(b)) => if b == 0 || (a == i32::MIN && b
                == -1) {
                Err(Fault::DivisionError)
            } else {
                Ok(ValueModel::Integer(quotient(a as int, b as int) as i32))
            },
            _ => Err(Fault::TypeError("cannot divide non-integers"@)),
        },
        BinaryOp::Equal => match (l, r) {
            (ValueModel::Integer(a), ValueModel::Integer(b)) => Ok(ValueModel::Boolean(a == b)),
            _ => Err(Fault::TypeError("cannot check equality of non-integers"@)),
        },
        BinaryOp::NotEqual => match (l, r) {
            (ValueModel::Integer(a), ValueModel::Integer(b)) => Ok(ValueModel::Boolean(a != b)),
            _ => Err(Fault::TypeError("cannot check non-equality of non-integers"@)),
        },
        BinaryOp::LessThanOrEqual => match (l, r) {
            (ValueModel::Integer(a), ValueModel::Integer(b)) => Ok(ValueModel::Boolean(a <= b)),
            _ => Err(Fault::TypeError("cannot check less than or equal of non-integers"@)),
        },
        BinaryOp::GreaterThanOrEqual => match (l, r) {
            (ValueModel::Integer(a), ValueModel::Integer(b)) => Ok(ValueModel::Boolean(a >= b)),
            _ => Err(Fault::TypeError("cannot check greater than or equal of non-integers"@)),
        },
        BinaryOp::LessThan => match (l, r) {
            (ValueModel::Integer(a), ValueModel::Integer(b)) => Ok(ValueModel::Boolean(a < b)),
            _ => Err(Fault::TypeError("cannot check less than of non-integers"@)),
        },
        BinaryOp::GreaterThan => match (l, r) {
            (ValueModel::Integer(a), ValueModel::Integer(b)) => Ok(ValueModel::Boolean(a > b)),
            _ => Err(Fault::TypeError("cannot check greater than of non-integers"@)),
        },
        BinaryOp::BoolEqual => match (l, r) {
            (ValueModel::Boolean(a), ValueModel::Boolean(b)) => Ok(ValueModel::Boolean(a == b)),
            _ => Err(Fault::TypeError("cannot check equality of non-booleans"@)),
        },
        BinaryOp::BoolNotEqual => match (l, r) {
            (ValueModel::Boolean(a), ValueModel::Boolean(b)) => Ok(ValueModel::Boolean(a != b)),
            _ => Err(Fault::TypeError("cannot check non-equality of non-booleans"@)),
        },
    }
}

/// What a built-in does with its arguments and the output written so far: the
/// value of the call and the output after it. A built-in that returns nothing
/// has the value `Integer(0)`. A call with another number of arguments than
/// the built-in has parameters fails with `IncorrectArgumentNumber`.
pub open spec fn builtin_result(builtin: Builtin, args: Seq<ValueModel>, output: Seq<u8>) -> Result<
    (ValueModel, Seq<u8>),
    Fault,
> {
    if args.len() != builtin.params().len() {
        Err(Fault::IncorrectArgumentNumber)
    } else {
        match builtin {
            Builtin::PrintInt => match args[0] {
                ValueModel::Integer(v) => Ok(
                    (ValueModel::Integer(0), output + decimal(v as int) + seq![10u8]),
                ),
                _ => Err(Fault::TypeError("print_int only prints integers"@)),
            },
            Builtin::PrintBool => match args[0] {
                ValueModel::Boolean(v) => Ok(
                    (
                        ValueModel::Integer(0),
                        output + (if v {
                            "true\n".spec_bytes()
                        } else {
                            "false\n".spec_bytes()
                        }),
                    ),
                ),
                _ => Err(Fault::TypeError("print_bool only prints booleans"@)),
            },
            Builtin::PrintStr => match args[0] {
                ValueModel::String(v) => Ok((ValueModel::Integer(0), output + v + seq![10u8])),
                _ => Err(Fault::TypeError("print_str only prints strings"@)),
            },
            Builtin::StrEq => match (args[0], args[1]) {
                (ValueModel::String(l), ValueModel::String(r)) => Ok(
                    (ValueModel::Boolean(l == r), output),
                ),
                _ => Err(Fault::TypeError("str_eq only compares strings"@)),
            },
            Builtin::StrLen => match args[0] {
                ValueModel::String(v) => Ok((ValueModel::Integer(wrap_length(v.len())), output)),
                _ => Err(Fault::TypeError("str_len only takes a string"@)),
            },
            Builtin::StrConcat => match (args[0], args[1]) {
                (ValueModel::String(l), ValueModel::String(r)) => Ok(
                    (ValueModel::String(l + r), output),
                ),
                _ => Err(Fault::TypeError("str_concat can only concatenate strings"@)),
            },
            Builtin::AssertIntEq => match (args[0], args[1]) {
                (ValueModel::Integer(l), ValueModel::Integer(r)) => if l == r {
                    Ok((ValueModel::Integer(0), output))
                } else {
                    Err(Fault::Panic)
                },
                _ => Err(Fault::TypeError("assert_int_eq only compares integers"@)),
            },
            Builtin::AssertBoolEq => match (args[0], args[1]) {
                (ValueModel::Boolean(l), ValueModel::Boolean(r)) => if l == r {
                    Ok((ValueModel::Integer(0), output))
                } else {
                    Err(Fault::Panic)
                },
                _ => Err(Fault::TypeError("assert_bool_eq only compares booleans"@)),
            },
            Builtin::AssertStrEq => match (args[0], args[1]) {
                (ValueModel::String(l), ValueModel::String(r)) => if l == r {
                    Ok((ValueModel::Integer(0), output))
                } else {
                    Err(Fault::Panic)
                },
                _ => Err(Fault::TypeError("assert_str_eq only compares strings"@)),
            },
            Builtin::Panic => Err(Fault::Panic),
        }
    }
}

/// What a call of `name` does if `name` is a built-in; `None` if it is not.
pub open spec fn std_function_result(name: Seq<u8>, args: Seq<ValueModel>, output: Seq<u8>) -> Option<
    Result<(ValueModel, Seq<u8>), Fault>,
> {
    match builtin_named(name) {
        Some(builtin) => Some(builtin_result(builtin, args, output)),
        None => None,
    }
}

/// The variables of a call: the parameters from position `from` on are bound
/// to the arguments at the same positions, each after its type was checked.
pub open spec fn bind_parameters(
    variables: Variables,
    parameters: Seq<DefinitionModel>,
    args: Seq<ValueModel>,
    from: int,
) -> Result<Variables, Fault>
    decreases parameters.len() - from,
{
    if from < 0 || from >= parameters.len() || from >= args.len() {
        Ok(variables)
    } else if type_of(args[from]) != parameters[from].data_type {
        Err(Fault::TypeError("user-defined function called with incorrect arguments"@))
    } else {
        bind_parameters(
            bind(variables, parameters[from].name, args[from]),
            parameters,
            args,
            from + 1,
        )
    }
}

/// The value of an expression and the machine after its evaluation. `fuel`
/// bounds the depth of the evaluation: each step into a part of the program,
/// each round of a loop and each statement of a list takes one unit, and an
/// evaluation that would need more ends with `StepLimit`.
pub open spec fn eval_node(
    functions: Seq<(Seq<u8>, FunctionModel)>,
    machine: Machine,
    node: NodeModel,
    fuel: nat,
) -> Result<(ValueModel, Machine), Fault>
    decreases fuel,
{
    if fuel == 0 {
        Err(Fault::StepLimit)
    } else {
        let rest = (fuel - 1) as nat;
        match node {
            NodeModel::Int(v) => Ok((ValueModel::Integer(v), machine)),
            NodeModel::Bool(v) => Ok((ValueModel::Boolean(v), machine)),
            NodeModel::StringLiteral(v) => Ok((ValueModel::String(v), machine)),
            NodeModel::Binary { op, lhs, rhs } => match eval_node(functions, machine, *lhs, rest) {
                Err(fault) => Err(fault),
                Ok((l, after_lhs)) => match eval_node(functions, after_lhs, *rhs, rest) {
                    Err(fault) => Err(fault),
                    Ok((r, after_rhs)) => match binary_result(op, l, r) {
                        Err(fault) => Err(fault),
                        Ok(value) => Ok((value, after_rhs)),
                    },
                },
            },
            NodeModel::Let { name, var_type, value } => match eval_node(
                functions,
                machine,
                *value,
                rest,
            ) {
                Err(fault) => Err(fault),
                Ok((v, after)) => if type_of(v) != var_type {
                    Err(Fault::TypeError("value must be same type as variable is declared"@))
                } else {
                    Ok(
                        (
                            v,
                            Machine {
                                variables: bind(after.variables, name, v),
                                output: after.output,
                            },
                        ),
                    )
                },
            },
            NodeModel::Get { name } => match lookup(machine.variables, name) {
                Some(v) => Ok((v, machine)),
                None => Err(Fault::UndefinedVariable(name)),
            },
            NodeModel::Function { name, args } => match eval_args(
                functions,
                machine,
                args,
                0,
                Seq::empty(),
                rest,
            ) {
                Err(fault) => Err(fault),
                Ok((values, after)) => match std_function_result(name, values, after.output) {
                    Some(Err(fault)) => Err(fault),
                    Some(Ok((v, output))) => Ok(
                        (v, Machine { variables: after.variables, output }),
                    ),
                    None => match find_function(functions, name) {
                        None => Err(Fault::UndefinedFunction(name)),
                        Some(info) => match call_function(
                            functions,
                            info,
                            values,
                            after.output,
                            rest,
                        ) {
                            Err(fault) => Err(fault),
                            Ok((v, output)) => Ok(
                                (v, Machine { variables: after.variables, output }),
                            ),
                        },
                    },
                },
            },
        }
    }
}

/// The values of the arguments from position `from` on, evaluated from left
/// to right and added to `done`, and the machine after them.
pub open spec fn eval_args(
    functions: Seq<(Seq<u8>, FunctionModel)>,
    machine: Machine,
    args: Seq<NodeModel>,
    from: int,
    done: Seq<ValueModel>,
    fuel: nat,
) -> Result<(Seq<ValueModel>, Machine), Fault>
    decreases fuel,
{
    if from < 0 || from >= args.len() {
        Ok((done, machine))
    } else if fuel == 0 {
        Err(Fault::StepLimit)
    } else {
        match eval_node(functions, machine, args[from], (fuel - 1) as nat) {
            Err(fault) => Err(fault),
            Ok((v, after)) => eval_args(
                functions,
                after,
                args,
                from + 1,
                done.push(v),
                (fuel - 1) as nat,
            ),
        }
    }
}

/// What a call of a user function gives: its value (`Void` where the body ends
/// without a `return`) and the output after it. The call has variables of its
/// own, which at first hold the parameters only.
pub open spec fn call_function(
    functions: Seq<(Seq<u8>, FunctionModel)>,
    info: FunctionModel,
    args: Seq<ValueModel>,
    output: Seq<u8>,
    fuel: nat,
) -> Result<(ValueModel, Seq<u8>), Fault>
    decreases fuel,
{
    if args.len() != info.args.len() {
        Err(Fault::IncorrectArgumentNumber)
    } else {
        match bind_parameters(Seq::empty(), info.args, args, 0) {
            Err(fault) => Err(fault),
            Ok(variables) => if fuel == 0 {
                Err(Fault::StepLimit)
            } else {
                match eval_statements(
                    functions,
                    Machine { variables, output },
                    info.body,
                    0,
                    (fuel - 1) as nat,
                ) {
                    Err(fault) => Err(fault),
                    Ok((Some(v), after)) => Ok((v, after.output)),
                    Ok((None, after)) => Ok((ValueModel::Void, after.output)),
                }
            },
        }
    }
}

/// Runs the statements from position `from` on, in order, until one returns.
/// The result holds the returned value, if any.
pub open spec fn eval_statements(
    functions: Seq<(Seq<u8>, FunctionModel)>,
    machine: Machine,
    statements: Seq<StatementModel>,
    from: int,
    fuel: nat,
) -> Result<(Option<ValueModel>, Machine), Fault>
    decreases fuel,
{
    if from < 0 || from >= statements.len() {
        Ok((None, machine))
    } else if fuel == 0 {
        Err(Fault::StepLimit)
    } else {
        match eval_statement(functions, machine, statements[from], (fuel - 1) as nat) {
            Err(fault) => Err(fault),
            Ok((Some(v), after)) => Ok((Some(v), after)),
            Ok((None, after)) => eval_statements(
                functions,
                after,
                statements,
                from + 1,
                (fuel - 1) as nat,
            ),
        }
    }
}

/// Runs one statement. The result holds the returned value where the
/// statement, or one inside it, was a `return`.
pub open spec fn eval_statement(
    functions: Seq<(Seq<u8>, FunctionModel)>,
    machine: Machine,
    statement: StatementModel,
    fuel: nat,
) -> Result<(Option<ValueModel>, Machine), Fault>
    decreases fuel,
{
    if fuel == 0 {
        Err(Fault::StepLimit)
    } else {
        let rest = (fuel - 1) as nat;
        match statement {
            StatementModel::Node(node) => match eval_node(functions, machine, node, rest) {
                Err(fault) => Err(fault),
                Ok((_, after)) => Ok((None, after)),
            },
            StatementModel::Return(node) => match eval_node(functions, machine, node, rest) {
                Err(fault) => Err(fault),
                Ok((v, after)) => Ok((Some(v), after)),
            },
            StatementModel::If { condition, branch, else_branch } => match eval_node(
                functions,
                machine,
                condition,
                rest,
            ) {
                Err(fault) => Err(fault),
                Ok((ValueModel::Boolean(true), after)) => eval_statements(
                    functions,
                    after,
                    branch,
                    0,
                    rest,
                ),
                Ok((ValueModel::Boolean(false), after)) => eval_statements(
                    functions,
                    after,
                    else_branch,
                    0,
                    rest,
                ),
                Ok(_) => Err(Fault::TypeError("if condition must be boolean"@)),
            },
            StatementModel::While { condition, loop_statements } => eval_while(
                functions,
                machine,
                condition,
                loop_statements,
                rest,
            ),
            StatementModel::InfiniteLoop(body) => eval_loop(functions, machine, body, rest),
        }
    }
}

/// Runs a `while` loop: as long as the condition is true, the body; a `return`
/// in the body ends the loop with its value.
pub open spec fn eval_while(
    functions: Seq<(Seq<u8>, FunctionModel)>,
    machine: Machine,
    condition: NodeModel,
    body: Seq<StatementModel>,
    fuel: nat,
) -> Result<(Option<ValueModel>, Machine), Fault>
    decreases fuel,
{
    if fuel == 0 {
        Err(Fault::StepLimit)
    } else {
        let rest = (fuel - 1) as nat;
        match eval_node(functions, machine, condition, rest) {
            Err(fault) => Err(fault),
            Ok((ValueModel::Boolean(false), after)) => Ok((None, after)),
            Ok((ValueModel::Boolean(true), after)) => match eval_statements(
                functions,
                after,
                body,
                0,
                rest,
            ) {
                Err(fault) => Err(fault),
                Ok((Some(v), after_body)) => Ok((Some(v), after_body)),
                Ok((None, after_body)) => eval_while(functions, after_body, condition, body, rest),
            },
            Ok(_) => Err(Fault::TypeError("while condition must be boolean"@)),
        }
    }
}

/// Runs a `loop`: the body again and again, until a `return` in it ends the
/// loop with its value.
pub open spec fn eval_loop(
    functions: Seq<(Seq<u8>, FunctionModel)>,
    machine: Machine,
    body: Seq<StatementModel>,
    fuel: nat,
) -> Result<(Option<ValueModel>, Machine), Fault>
    decreases fuel,
{
    if fuel == 0 {
        Err(Fault::StepLimit)
    } else {
        let rest = (fuel - 1) as nat;
        match eval_statements(functions, machine, body, 0, rest) {
            Err(fault) => Err(fault),
            Ok((Some(v), after)) => Ok((Some(v), after)),
            Ok((None, after)) => eval_loop(functions, after, body, rest),
        }
    }
}

/// The entry function of a program: its top-level statements, without
/// parameters.
pub open spec fn entry_function(program: ProgramModel) -> FunctionModel {
    FunctionModel { body: program.statements, args: Seq::empty(), return_type: AbstractType::Void }
}

/// The output of a program, or the fault that ended it.
pub open spec fn run_program(program: ProgramModel, fuel: nat) -> Result<Seq<u8>, Fault> {
    match call_function(program.functions, entry_function(program), Seq::empty(), Seq::empty(), fuel) {
        Err(fault) => Err(fault),
        Ok((_, output)) => Ok(output),
    }
}

/// The models of the variables of a call.
pub open spec fn variables_view(variables: Seq<(Vec<u8>, Value)>) -> Variables {
    Seq::new(variables.len(), |i: int| (variables[i].0@, variables[i].1@))
}

/// The models of a list of values, in order.
pub open spec fn values_view(values: Seq<Value>) -> Seq<ValueModel> {
    Seq::new(values.len(), |i: int| values[i]@)
}

/// Whether a returned value stands for an expected one, fault for fault.
pub open spec fn value_agrees(r: Result<Value, RuntimeResult>, expected: Result<ValueModel, Fault>) -> bool {
    match expected {
        Ok(v) => match r {
            Ok(x) => x@ == v,
            Err(_) => false,
        },
        Err(fault) => match r {
            Ok(_) => false,
            Err(e) => e@ == fault,
        },
    }
}

fn find_variable(variables: &Vec<(Vec<u8>, Value)>, name: &Vec<u8>) -> (r: Option<usize>)
    ensures
        match r {
            Some(i) => i < variables.len() && position_from(variables_view(variables@), name@, 0)
                == Some(i as int),
            None => position_from(variables_view(variables@), name@, 0) is None,
        },
{
    let mut i: usize = 0;
    while i < variables.len()
        invariant
            i <= variables.len(),
            position_from(variables_view(variables@), name@, 0) == position_from(
                variables_view(variables@),
                name@,
                i as int,
            ),
        decreases variables.len() - i,
    {
        if bytes_eq(&variables[i].0, name) {
            return Some(i);
        }
        i = i + 1;
    }
    None
}

fn bind_variable(variables: &mut Vec<(Vec<u8>, Value)>, name: Vec<u8>, value: Value)
    ensures
        variables_view(final(variables)@) == bind(variables_view(old(variables)@), name@, value@),
{
    match find_variable(variables, &name) {
        Some(i) => {
            variables.set(i, (name, value));
            assert(variables_view(variables@) =~= variables_view(old(variables)@).update(
                i as int,
                (name@, value@),
            ));
        },
        None => {
            variables.push((name, value));
            assert(variables_view(variables@) =~= variables_view(old(variables)@).push(
                (name@, value@),
            ));
        },
    }
}

fn find_function_info<'a>(functions: &'a Vec<(Vec<u8>, FunctionInfo)>, name: &Vec<u8>) -> (r:
    Option<&'a FunctionInfo>)
    ensures
        match r {
            Some(info) => find_function(functions_view(functions@), name@) == Some(info@),
            None => find_function(functions_view(functions@), name@) is None,
        },
{
    let mut i: usize = functions.len();
    while i > 0
        invariant
            i <= functions.len(),
            function_position(functions_view(functions@), name@, functions.len() as int)
                == function_position(functions_view(functions@), name@, i as int),
        decreases i,
    {
        i = i - 1;
        if bytes_eq(&functions[i].0, name) {
            return Some(&functions[i].1);
        }
    }
    None
}

fn divide(a: i32, b: i32) -> (r: Result<Value, RuntimeResult>)
    ensures
        value_agrees(r, binary_result(BinaryOp::Divide, ValueModel::Integer(a), ValueModel::Integer(b))),
{
    proof {
        let x = a as int;
        let d = b as int;
        if d > 0 && x >= 0 {
            assert(0 <= x / d <= x) by (nonlinear_arith)
                requires
                    d > 0,
                    x >= 0,
            ;
        }
        if d > 0 && x < 0 {
            assert(0 <= (-x) / d <= -x) by (nonlinear_arith)
                requires
                    d > 0,
                    x < 0,
            ;
        }
        if d < 0 && x >= 0 {
            assert(0 <= x / (-d) <= x) by (nonlinear_arith)
                requires
                    d < 0,
                    x >= 0,
            ;
        }
        if d < -1 && x < 0 {
            assert(0 <= (-x) / (-d) < -x) by (nonlinear_arith)
                requires
                    d < -1,
                    x < 0,
            ;
        }
        assert((-x) / 1 == -x) by (nonlinear_arith);
        assert(x / 1 == x) by (nonlinear_arith);
        assert(x * -1 == -x);
        assert(d * -1 == -d);
    }
    match a.checked_div(b) {
        Some(v) => Ok(Value::Integer(v)),
        None => Err(RuntimeResult::DivisionError),
    }
}

/// Applies a two-operand operator to two values.
pub fn apply_binary(op: BinaryOp, l: Value, r: Value) -> (res: Result<Value, RuntimeResult>)
    ensures
        value_agrees(res, binary_result(op, l@, r@)),
{
    match op {
        BinaryOp::Add => match (l, r) {
            (Value::Integer(a), Value::Integer(b)) => {
                match a.checked_add(b) {
                    Some(v) => Ok(Value::Integer(v)),
                    None => Err(RuntimeResult::AdditionOverflow),
                }
            },
            _ => Err(RuntimeResult::TypeError("cannot add non-integers")),
        },
        BinaryOp::Subtract => match (l, r) {
            (Value::Integer(a), Value::Integer(b)) => {
                match a.checked_sub(b) {
                    Some(v) => Ok(Value::Integer(v)),
                    None => Err(RuntimeResult::SubtractionOverflow),
                }
            },
            _ => Err(RuntimeResult::TypeError("cannot subtract non-integers")),
        },
        BinaryOp::Multiply => match (l, r) {
            (Value::Integer(a), Value::Integer(b)) => {
                match a.checked_mul(b) {
                    Some(v) => Ok(Value::Integer(v)),
                    None => Err(RuntimeResult::MultiplicationOverflow),
                }
            },
            _ => Err(RuntimeResult::TypeError("cannot multiply non-integers")),
        },
        BinaryOp::Divide => match (l, r) {
            (Value::Integer(a), Value::Integer(b)) => {
                divide(a, b)
            },
            _ => Err(RuntimeResult::TypeError("cannot divide non-integers")),
        },
        BinaryOp::Equal => match (l, r) {
            (Value::Integer(a), Value::Integer(b)) => {
                Ok(Value::Boolean(a == b))
            },
            _ => Err(RuntimeResult::TypeError("cannot check equality of non-integers")),
        },
        BinaryOp::NotEqual => match (l, r) {
            (Value::Integer(a), Value::Integer(b)) => {
                Ok(Value::Boolean(a != b))
            },
            _ => Err(RuntimeResult::TypeError("cannot check non-equality of non-integers")),
        },
        BinaryOp::LessThanOrEqual => match (l, r) {
            (Value::Integer(a), Value::Integer(b)) => {
                Ok(Value::Boolean(a <= b))
            },
            _ => Err(RuntimeResult::TypeError("cannot check less than or equal of non-integers")),
        },
        BinaryOp::GreaterThanOrEqual => match (l, r) {
            (Value::Integer(a), Value::Integer(b)) => {
                Ok(Value::Boolean(a >= b))
            },
            _ => Err(RuntimeResult::TypeError("cannot check greater than or equal of non-integers")),
        },
        BinaryOp::LessThan => match (l, r) {
            (Value::Integer(a), Value::Integer(b)) => {
                Ok(Value::Boolean(a < b))
            },
            _ => Err(RuntimeResult::TypeError("cannot check less than of non-integers")),
        },
        BinaryOp::GreaterThan => match (l, r) {
            (Value::Integer(a), Value::Integer(b)) => {
                Ok(Value::Boolean(a > b))
            },
            _ => Err(RuntimeResult::TypeError("cannot check greater than of non-integers")),
        },
        BinaryOp::BoolEqual => match (l, r) {
            (Value::Boolean(a), Value::Boolean(b)) => {
                Ok(Value::Boolean(a == b))
            },
            _ => Err(RuntimeResult::TypeError("cannot check equality of non-booleans")),
        },
        BinaryOp::BoolNotEqual => match (l, r) {
            (Value::Boolean(a), Value::Boolean(b)) => {
                Ok(Value::Boolean(a != b))
            },
            _ => Err(RuntimeResult::TypeError("cannot check non-equality of non-booleans")),
        },
    }
}

fn wrapped_length(n: usize) -> (r: i32)
    ensures
        r == wrap_length(n as nat),
{
    let low: u64 = (n as u64) % 0x1_0000_0000;
    if low < 0x8000_0000 {
        low as i32
    } else {
        ((low as i64) - 0x1_0000_0000) as i32
    }
}

/// Whether what a built-in returned, and the output after it, stand for the
/// expected result.
pub open spec fn builtin_agrees(
    r: Result<Value, RuntimeResult>,
    output: Seq<u8>,
    expected: Result<(ValueModel, Seq<u8>), Fault>,
) -> bool {
    match expected {
        Ok((v, out)) => match r {
            Ok(x) => x@ == v && output == out,
            Err(_) => false,
        },
        Err(fault) => match r {
            Ok(_) => false,
            Err(e) => e@ == fault,
        },
    }
}

/// Runs a built-in on its arguments, writing to `output` what it prints.
pub fn call_builtin(builtin: Builtin, args: &Vec<Value>, output: &mut Vec<u8>) -> (r: Result<
    Value,
    RuntimeResult,
>)
    ensures
        builtin_agrees(r, final(output)@, builtin_result(builtin, values_view(args@), old(output)@)),
{
    if args.len() != builtin.parameters().len() {
        return Err(RuntimeResult::IncorrectArgumentNumber);
    }
    match builtin {
        Builtin::PrintInt => match &args[0] {
            Value::Integer(v) => {
                push_decimal(output, *v);
                output.push(10u8);
                assert(output@ =~= old(output)@ + decimal(*v as int) + seq![10u8]);
                Ok(Value::Integer(0))
            },
            _ => Err(RuntimeResult::TypeError("print_int only prints integers")),
        },
        Builtin::PrintBool => match &args[0] {
            Value::Boolean(v) => {
                if *v {
                    append_text(output, "true\n");
                } else {
                    append_text(output, "false\n");
                }
                Ok(Value::Integer(0))
            },
            _ => Err(RuntimeResult::TypeError("print_bool only prints booleans")),
        },
        Builtin::PrintStr => match &args[0] {
            Value::String(v) => {
                append_bytes(output, v);
                output.push(10u8);
                assert(output@ =~= old(output)@ + v@ + seq![10u8]);
                Ok(Value::Integer(0))
            },
            _ => Err(RuntimeResult::TypeError("print_str only prints strings")),
        },
        Builtin::StrEq => match (&args[0], &args[1]) {
            (Value::String(l), Value::String(r)) => Ok(Value::Boolean(bytes_eq(l, r))),
            _ => Err(RuntimeResult::TypeError("str_eq only compares strings")),
        },
        Builtin::StrLen => match &args[0] {
            Value::String(v) => Ok(Value::Integer(wrapped_length(v.len()))),
            _ => Err(RuntimeResult::TypeError("str_len only takes a string")),
        },
        Builtin::StrConcat => match (&args[0], &args[1]) {
            (Value::String(l), Value::String(r)) => {
                let mut joined = copy_bytes(l);
                append_bytes(&mut joined, r);
                Ok(Value::String(joined))
            },
            _ => Err(RuntimeResult::TypeError("str_concat can only concatenate strings")),
        },
        Builtin::AssertIntEq => match (&args[0], &args[1]) {
            (Value::Integer(l), Value::Integer(r)) => {
                if *l != *r {
                    return Err(RuntimeResult::Panic);
                }
                Ok(Value::Integer(0))
            },
            _ => Err(RuntimeResult::TypeError("assert_int_eq only compares integers")),
        },
        Builtin::AssertBoolEq => match (&args[0], &args[1]) {
            (Value::Boolean(l), Value::Boolean(r)) => {
                if *l != *r {
                    return Err(RuntimeResult::Panic);
                }
                Ok(Value::Integer(0))
            },
            _ => Err(RuntimeResult::TypeError("assert_bool_eq only compares booleans")),
        },
        Builtin::AssertStrEq => match (&args[0], &args[1]) {
            (Value::String(l), Value::String(r)) => {
                if !bytes_eq(l, r) {
                    return Err(RuntimeResult::Panic);
                }
                Ok(Value::Integer(0))
            },
            _ => Err(RuntimeResult::TypeError("assert_str_eq only compares strings")),
        },
        Builtin::Panic => Err(RuntimeResult::Panic),
    }
}

/// Runs the built-in called `name`, if there is one: `Ok(None)` says that
/// `name` is no built-in, and then nothing was written.
pub fn try_std_function(name: &Vec<u8>, args: &Vec<Value>, output: &mut Vec<u8>) -> (r: Result<
    Option<Value>,
    RuntimeResult,
>)
    ensures
        match std_function_result(name@, values_view(args@), old(output)@) {
            None => r matches Ok(None) && final(output)@ == old(output)@,
            Some(Ok((v, out))) => r matches Ok(Some(x)) && x@ == v && final(output)@ == out,
            Some(Err(fault)) => r matches Err(e) && e@ == fault,
        },
{
    match find_builtin(name) {
        None => Ok(None),
        Some(builtin) => match call_builtin(builtin, args, output) {
            Ok(v) => Ok(Some(v)),
            Err(e) => Err(e),
        },
    }
}

/// Whether what the evaluation of an expression returned, and the variables
/// and the output after it, stand for the expected result.
pub open spec fn node_agrees(
    r: Result<Value, RuntimeResult>,
    variables: Seq<(Vec<u8>, Value)>,
    output: Seq<u8>,
    expected: Result<(ValueModel, Machine), Fault>,
) -> bool {
    match expected {
        Ok((v, machine)) => match r {
            Ok(x) => x@ == v && variables_view(variables) == machine.variables && output
                == machine.output,
            Err(_) => false,
        },
        Err(fault) => match r {
            Ok(_) => false,
            Err(e) => e@ == fault,
        },
    }
}

/// Whether what running statements returned, and the variables and the output
/// after it, stand for the expected result.
pub open spec fn statement_agrees(
    r: Result<Option<Value>, RuntimeResult>,
    variables: Seq<(Vec<u8>, Value)>,
    output: Seq<u8>,
    expected: Result<(Option<ValueModel>, Machine), Fault>,
) -> bool {
    match expected {
        Ok((v, machine)) => match r {
            Ok(x) => (match (x, v) {
                (Some(a), Some(b)) => a@ == b,
                (None, None) => true,
                _ => false,
            }) && variables_view(variables) == machine.variables && output == machine.output,
            Err(_) => false,
        },
        Err(fault) => match r {
            Ok(_) => false,
            Err(e) => e@ == fault,
        },
    }
}

/// One call of a function while it runs: the function, its variables, and the
/// functions of the program.
pub struct FunctionState<'a> {
    pub info: &'a FunctionInfo,
    pub variables: Vec<(Vec<u8>, Value)>,
    pub functions: &'a Vec<(Vec<u8>, FunctionInfo)>,
}

impl<'a> FunctionState<'a> {
    /// The machine that the call and an output stand for.
    pub open spec fn machine(&self, output: Seq<u8>) -> Machine {
        Machine { variables: variables_view(self.variables@), output }
    }

    /// The functions of the program, as models.
    pub open spec fn table(&self) -> Seq<(Seq<u8>, FunctionModel)> {
        functions_view(self.functions@)
    }

    /// Runs the function on its arguments; the call must be a fresh one.
    #[verifier::loop_isolation(false)]
    pub fn run(&mut self, arguments: Vec<Value>, output: &mut Vec<u8>, fuel: u64) -> (r: Result<
        Value,
        RuntimeResult,
    >)
        requires
            old(self).variables@.len() == 0,
        ensures
            final(self).info == old(self).info,
            final(self).functions == old(self).functions,
            builtin_agrees(
                r,
                final(output)@,
                call_function(
                    old(self).table(),
                    old(self).info@,
                    values_view(arguments@),
                    old(output)@,
                    fuel as nat,
                ),
            ),
        decreases fuel, 1nat,
    {
        let info = self.info;
        if arguments.len() != info.args.len() {
            return Err(RuntimeResult::IncorrectArgumentNumber);
        }
        let ghost parameters = definitions_view(info.args@);
        let ghost values = values_view(arguments@);
        assert(variables_view(self.variables@) =~= Seq::empty());
        let mut i: usize = 0;
        while i < arguments.len()
            invariant
                i <= arguments.len(),
                arguments.len() == info.args.len(),
                parameters == definitions_view(info.args@),
                values == values_view(arguments@),
                self.info == old(self).info,
                self.functions == old(self).functions,
                info == self.info,
                output@ == old(output)@,
                bind_parameters(Seq::empty(), parameters, values, 0) == bind_parameters(
                    variables_view(self.variables@),
                    parameters,
                    values,
                    i as int,
                ),
            decreases arguments.len() - i,
        {
            if arguments[i].to_abstract() != info.args[i].data_type {
                return Err(
                    RuntimeResult::TypeError(
                        "user-defined function called with incorrect arguments",
                    ),
                );
            }
            bind_variable(
                &mut self.variables,
                copy_bytes(&info.args[i].name),
                copy_value(&arguments[i]),
            );
            i = i + 1;
        }
        if fuel == 0 {
            return Err(RuntimeResult::StepLimit);
        }
        match self.eval_statements(&info.body, output, fuel - 1) {
            Err(e) => Err(e),
            Ok(Some(v)) => Ok(v),
            Ok(None) => Ok(Value::Void),
        }
    }

    /// Runs statements in order until one returns.
    #[verifier::loop_isolation(false)]
    pub fn eval_statements(
        &mut self,
        statements: &Vec<Statement>,
        output: &mut Vec<u8>,
        fuel: u64,
    ) -> (r: Result<Option<Value>, RuntimeResult>)
        ensures
            final(self).info == old(self).info,
            final(self).functions == old(self).functions,
            statement_agrees(
                r,
                final(self).variables@,
                final(output)@,
                eval_statements(
                    old(self).table(),
                    old(self).machine(old(output)@),
                    statements_view(statements@),
                    0,
                    fuel as nat,
                ),
            ),
        decreases fuel, 1nat,
    {
        let ghost table = self.table();
        let ghost models = statements_view(statements@);
        let ghost expected = eval_statements(table, self.machine(output@), models, 0, fuel as nat);
        let mut i: usize = 0;
        let mut left: u64 = fuel;
        while i < statements.len()
            invariant
                i <= statements.len(),
                left <= fuel,
                self.info == old(self).info,
                self.functions == old(self).functions,
                table == self.table(),
                models == statements_view(statements@),
                expected == eval_statements(
                    table,
                    self.machine(output@),
                    models,
                    i as int,
                    left as nat,
                ),
            decreases statements.len() - i,
        {
            if left == 0 {
                return Err(RuntimeResult::StepLimit);
            }
            left = left - 1;
            match self.eval_statement(&statements[i], output, left) {
                Err(e) => {
                    return Err(e);
                },
                Ok(Some(v)) => {
                    return Ok(Some(v));
                },
                Ok(None) => {},
            }
            i = i + 1;
        }
        Ok(None)
    }

    /// Runs one statement.
    #[verifier::loop_isolation(false)]
    pub fn eval_statement(&mut self, statement: &Statement, output: &mut Vec<u8>, fuel: u64) -> (r:
        Result<Option<Value>, RuntimeResult>)
        ensures
            final(self).info == old(self).info,
            final(self).functions == old(self).functions,
            statement_agrees(
                r,
                final(self).variables@,
                final(output)@,
                eval_statement(
                    old(self).table(),
                    old(self).machine(old(output)@),
                    statement@,
                    fuel as nat,
                ),
            ),
        decreases fuel, 0nat,
    {
        if fuel == 0 {
            return Err(RuntimeResult::StepLimit);
        }
        let rest: u64 = fuel - 1;
        let ghost table = self.table();
        match statement {
            Statement::Node(node) => match self.eval_node(node, output, rest) {
                Err(e) => Err(e),
                Ok(_) => Ok(None),
            },
            Statement::Return(node) => match self.eval_node(node, output, rest) {
                Err(e) => Err(e),
                Ok(v) => Ok(Some(v)),
            },
            Statement::If { condition, branch, else_branch } => {
                proof {
                    lemma_if_model(*condition, *branch, *else_branch);
                }
                match self.eval_node(condition, output, rest) {
                    Err(e) => Err(e),
                    Ok(Value::Boolean(true)) => self.eval_statements(branch, output, rest),
                    Ok(Value::Boolean(false)) => self.eval_statements(else_branch, output, rest),
                    Ok(_) => Err(RuntimeResult::TypeError("if condition must be boolean")),
                }
            },
            Statement::While { condition, loop_statements } => {
                proof {
                    lemma_while_model(*condition, *loop_statements);
                }
                let ghost body = statements_view(loop_statements@);
                let ghost expected = eval_while(
                    table,
                    self.machine(output@),
                    condition@,
                    body,
                    rest as nat,
                );
                let mut left: u64 = rest;
                loop
                    invariant
                        left <= rest,
                        self.info == old(self).info,
                        self.functions == old(self).functions,
                        table == self.table(),
                        body == statements_view(loop_statements@),
                        expected == eval_while(
                            table,
                            self.machine(output@),
                            condition@,
                            body,
                            left as nat,
                        ),
                    decreases left,
                {
                    if left == 0 {
                        return Err(RuntimeResult::StepLimit);
                    }
                    left = left - 1;
                    match self.eval_node(condition, output, left) {
                        Err(e) => {
                            return Err(e);
                        },
                        Ok(Value::Boolean(false)) => {
                            return Ok(None);
                        },
                        Ok(Value::Boolean(true)) => match self.eval_statements(
                            loop_statements,
                            output,
                            left,
                        ) {
                            Err(e) => {
                                return Err(e);
                            },
                            Ok(Some(v)) => {
                                return Ok(Some(v));
                            },
                            Ok(None) => {},
                        },
                        Ok(_) => {
                            return Err(
                                RuntimeResult::TypeError("while condition must be boolean"),
                            );
                        },
                    }
                }
            },
            Statement::InfiniteLoop(statements) => {
                proof {
                    lemma_loop_model(*statements);
                }
                let ghost body = statements_view(statements@);
                let ghost expected = eval_loop(table, self.machine(output@), body, rest as nat);
                let mut left: u64 = rest;
                loop
                    invariant
                        left <= rest,
                        self.info == old(self).info,
                        self.functions == old(self).functions,
                        table == self.table(),
                        body == statements_view(statements@),
                        expected == eval_loop(table, self.machine(output@), body, left as nat),
                    decreases left,
                {
                    if left == 0 {
                        return Err(RuntimeResult::StepLimit);
                    }
                    left = left - 1;
                    match self.eval_statements(statements, output, left) {
                        Err(e) => {
                            return Err(e);
                        },
                        Ok(Some(v)) => {
                            return Ok(Some(v));
                        },
                        Ok(None) => {},
                    }
                }
            },
        }
    }

    fn eval_binary(
        &mut self,
        op: BinaryOp,
        lhs: &Node,
        rhs: &Node,
        output: &mut Vec<u8>,
        fuel: u64,
    ) -> (r: Result<Value, RuntimeResult>)
        requires
            fuel < STEP_LIMIT,
        ensures
            final(self).info == old(self).info,
            final(self).functions == old(self).functions,
            node_agrees(
                r,
                final(self).variables@,
                final(output)@,
                eval_node(
                    old(self).table(),
                    old(self).machine(old(output)@),
                    binary(op, lhs@, rhs@),
                    (fuel + 1) as nat,
                ),
            ),
        decreases fuel, 1nat,
    {
        let l = match self.eval_node(lhs, output, fuel) {
            Err(e) => {
                return Err(e);
            },
            Ok(v) => v,
        };
        let r = match self.eval_node(rhs, output, fuel) {
            Err(e) => {
                return Err(e);
            },
            Ok(v) => v,
        };
        apply_binary(op, l, r)
    }

    /// Evaluates an expression.
    #[verifier::loop_isolation(false)]
    pub fn eval_node(&mut self, node: &Node, output: &mut Vec<u8>, fuel: u64) -> (r: Result<
        Value,
        RuntimeResult,
    >)
        ensures
            final(self).info == old(self).info,
            final(self).functions == old(self).functions,
            node_agrees(
                r,
                final(self).variables@,
                final(output)@,
                eval_node(
                    old(self).table(),
                    old(self).machine(old(output)@),
                    node@,
                    fuel as nat,
                ),
            ),
        decreases fuel, 0nat,
    {
        if fuel == 0 {
            return Err(RuntimeResult::StepLimit);
        }
        let rest: u64 = fuel - 1;
        let ghost table = self.table();
        match node {
            Node::Int(v) => Ok(Value::Integer(*v)),
            Node::Bool(v) => Ok(Value::Boolean(*v)),
            Node::StringLiteral(v) => Ok(Value::String(copy_bytes(v))),
            Node::Let { name, var_type, value } => {
                let v = match self.eval_node(value, output, rest) {
                    Err(e) => {
                        return Err(e);
                    },
                    Ok(v) => v,
                };
                if v.to_abstract() != *var_type {
                    return Err(
                        RuntimeResult::TypeError("value must be same type as variable is declared"),
                    );
                }
                bind_variable(&mut self.variables, copy_bytes(name), copy_value(&v));
                Ok(v)
            },
            Node::Get { name } => match find_variable(&self.variables, name) {
                Some(i) => Ok(copy_value(&self.variables[i].1)),
                None => Err(RuntimeResult::UndefinedVariable(copy_bytes(name))),
            },
            Node::Function { name, args } => {
                proof {
                    lemma_call_model(*name, *args);
                }
                let ghost models = nodes_view(args@);
                let ghost expected = eval_args(
                    table,
                    self.machine(output@),
                    models,
                    0,
                    Seq::empty(),
                    rest as nat,
                );
                let mut values: Vec<Value> = Vec::new();
                let mut i: usize = 0;
                let mut left: u64 = rest;
                assert(values_view(values@) =~= Seq::empty());
                while i < args.len()
                    invariant
                        i <= args.len(),
                        left <= rest,
                        self.info == old(self).info,
                        self.functions == old(self).functions,
                        table == self.table(),
                        models == nodes_view(args@),
                        expected == eval_args(
                            table,
                            self.machine(output@),
                            models,
                            i as int,
                            values_view(values@),
                            left as nat,
                        ),
                    decreases args.len() - i,
                {
                    if left == 0 {
                        return Err(RuntimeResult::StepLimit);
                    }
                    left = left - 1;
                    let ghost before = values_view(values@);
                    match self.eval_node(&args[i], output, left) {
                        Err(e) => {
                            return Err(e);
                        },
                        Ok(v) => {
                            values.push(v);
                            assert(values_view(values@) =~= before.push(v@));
                        },
                    }
                    i = i + 1;
                }
                match try_std_function(name, &values, output) {
                    Err(e) => Err(e),
                    Ok(Some(v)) => Ok(v),
                    Ok(None) => match find_function_info(self.functions, name) {
                        None => Err(RuntimeResult::UndefinedFunction(copy_bytes(name))),
                        Some(info) => {
                            let mut call = FunctionState {
                                info,
                                variables: Vec::new(),
                                functions: self.functions,
                            };
                            call.run(values, output, rest)
                        },
                    },
                }
            },
            _ => {
                let (op, lhs, rhs) = operands(node);
                self.eval_binary(op, lhs, rhs, output, rest)
            },
        }
    }
}

/// Runs a program within a budget of evaluation steps and returns what it
/// wrote, or the fault that ended it.
pub fn interpret_bytes(file_description: FileDescription, fuel: u64) -> (r: Result<
    Vec<u8>,
    RuntimeResult,
>)
    ensures
        match run_program(file_description@, fuel as nat) {
            Ok(output) => r matches Ok(bytes) && bytes@ == output,
            Err(fault) => r matches Err(e) && e@ == fault,
        },
{
    let FileDescription { statements, functions } = file_description;
    let info = FunctionInfo { body: statements, args: Vec::new(), return_type: AbstractType::Void };
    assert(info@ == entry_function(file_description@)) by {
        assert(definitions_view(info.args@) =~= Seq::empty());
    }
    let mut output: Vec<u8> = Vec::new();
    let mut main_function = FunctionState { info: &info, variables: Vec::new(), functions: &functions };
    assert(values_view(Seq::<Value>::empty()) =~= Seq::empty());
    let arguments: Vec<Value> = Vec::new();
    assert(values_view(arguments@) =~= Seq::empty());
    match main_function.run(arguments, &mut output, fuel) {
        Err(e) => Err(e),
        Ok(_) => Ok(output),
    }
}

/// The text that `String::from_utf8_lossy` makes of a byte string.
pub uninterp spec fn lossy_text(bytes: Seq<u8>) -> Seq<char>;

/// Calls `String::from_utf8_lossy` and takes the result as an owned string.
/// The contract names the result, and claims what the documentation says of
/// valid input: bytes that are UTF-8 come back as the text they encode.
#[verifier::external_body]
fn text_of(bytes: &Vec<u8>) -> (r: String)
    ensures
        r@ == lossy_text(bytes@),
        valid_utf8(bytes@) ==> r@ == decode_utf8(bytes@),
{
    String::from_utf8_lossy(bytes).into_owned()
}

/// Whether a text is what a program wrote: the output as text, where the
/// output is UTF-8 the text it encodes.
pub open spec fn text_agrees(text: Seq<char>, output: Seq<u8>) -> bool {
    text == lossy_text(output) && (valid_utf8(output) ==> text == decode_utf8(output))
}

/// Runs a program and returns what it wrote, as text, or the fault that ended
/// it.
pub fn interpret(file_description: FileDescription) -> (r: Result<String, RuntimeResult>)
    ensures
        match run_program(file_description@, STEP_LIMIT as nat) {
            Ok(output) => r matches Ok(text) && text_agrees(text@, output),
            Err(fault) => r matches Err(e) && e@ == fault,
        },
{
    match interpret_bytes(file_description, STEP_LIMIT) {
        Err(e) => Err(e),
        Ok(output) => Ok(text_of(&output)),
    }
}

/// The program that binds an integer to a variable and prints the variable.
pub open spec fn print_program(name: Seq<u8>, n: i32) -> ProgramModel {
    ProgramModel {
        statements: seq![
            StatementModel::Node(
                NodeModel::Let {
                    name,
                    var_type: AbstractType::Integer,
                    value: Box::new(NodeModel::Int(n)),
                },
            ),
            StatementModel::Node(
                NodeModel::Function {
                    name: Builtin::PrintInt.name(),
                    args: seq![NodeModel::Get { name }],
                },
            ),
        ],
        functions: Seq::empty(),
    }
}

/// A program that binds any 32-bit integer to a variable and prints the
/// variable writes the decimal notation of the integer and a line feed.
pub proof fn lemma_print_int_writes_decimal(name: Seq<u8>, n: i32)
    ensures
        run_program(print_program(name, n), STEP_LIMIT as nat) == Ok::<Seq<u8>, Fault>(
            decimal(n as int) + seq![10u8],
        ),
{
    let program = print_program(name, n);
    let table = program.functions;
    let fuel = STEP_LIMIT as nat;
    let bound = Machine {
        variables: seq![(name, ValueModel::Integer(n))],
        output: Seq::<u8>::empty(),
    };
    let start = Machine { variables: Seq::empty(), output: Seq::empty() };
    let declare = NodeModel::Let {
        name,
        var_type: AbstractType::Integer,
        value: Box::new(NodeModel::Int(n)),
    };
    let read = NodeModel::Get { name };
    let print = NodeModel::Function { name: Builtin::PrintInt.name(), args: seq![read] };
    let written = Seq::<u8>::empty() + decimal(n as int) + seq![10u8];
    let done = Machine { variables: bound.variables, output: written };

    assert(bind_parameters(Seq::empty(), Seq::empty(), Seq::empty(), 0) == Ok::<Variables, Fault>(
        Seq::empty(),
    ));
    // The declaration binds the variable.
    assert(eval_node(table, start, NodeModel::Int(n), (fuel - 4) as nat) == Ok::<
        (ValueModel, Machine),
        Fault,
    >((ValueModel::Integer(n), start)));
    assert(position_from(start.variables, name, 0) is None);
    assert(bind(start.variables, name, ValueModel::Integer(n)) =~= bound.variables);
    assert(eval_node(table, start, declare, (fuel - 3) as nat) == Ok::<(ValueModel, Machine), Fault>(
        (ValueModel::Integer(n), bound),
    ));
    assert(eval_statement(table, start, program.statements[0], (fuel - 2) as nat) == Ok::<
        (Option<ValueModel>, Machine),
        Fault,
    >((None, bound)));
    // The call reads the variable and prints it.
    assert(position_from(bound.variables, name, 0) == Some(0int)) by {
        assert(bound.variables[0].0 == name);
    }
    assert(eval_node(table, bound, read, (fuel - 6) as nat) == Ok::<(ValueModel, Machine), Fault>(
        (ValueModel::Integer(n), bound),
    ));
    let values = seq![ValueModel::Integer(n)];
    assert(Seq::<ValueModel>::empty().push(ValueModel::Integer(n)) =~= values);
    assert(eval_args(table, bound, seq![read], 1, values, (fuel - 6) as nat) == Ok::<
        (Seq<ValueModel>, Machine),
        Fault,
    >((values, bound)));
    assert(eval_args(table, bound, seq![read], 0, Seq::empty(), (fuel - 5) as nat) == Ok::<
        (Seq<ValueModel>, Machine),
        Fault,
    >((values, bound)));
    assert(builtin_named(Builtin::PrintInt.name()) == Some(Builtin::PrintInt));
    assert(Builtin::PrintInt.params().len() == 1);
    assert(std_function_result(Builtin::PrintInt.name(), values, bound.output) == Some(
        Ok::<(ValueModel, Seq<u8>), Fault>((ValueModel::Integer(0), written)),
    ));
    assert(eval_node(table, bound, print, (fuel - 4) as nat) == Ok::<(ValueModel, Machine), Fault>(
        (ValueModel::Integer(0), done),
    ));
    assert(eval_statement(table, bound, program.statements[1], (fuel - 3) as nat) == Ok::<
        (Option<ValueModel>, Machine),
        Fault,
    >((None, done)));
    assert(eval_statements(table, done, program.statements, 2, (fuel - 3) as nat) == Ok::<
        (Option<ValueModel>, Machine),
        Fault,
    >((None, done)));
    assert(eval_statements(table, bound, program.statements, 1, (fuel - 2) as nat) == Ok::<
        (Option<ValueModel>, Machine),
        Fault,
    >((None, done)));
    assert(eval_statements(table, start, program.statements, 0, (fuel - 1) as nat) == Ok::<
        (Option<ValueModel>, Machine),
        Fault,
    >((None, done)));
    assert(written =~= decimal(n as int) + seq![10u8]);
}

/// The fault of an arithmetic operator on two integers whose exact result is
/// no 32-bit integer, or has no meaning: none where there is a result.
pub open spec fn arithmetic_fault(op: BinaryOp, a: i32, b: i32) -> Option<Fault> {
    match op {
        BinaryOp::Add => if a + b > i32::MAX || a + b < i32::MIN {
            Some(Fault::AdditionOverflow)
        } else {
            None
        },
        BinaryOp::Subtract => if a - b > i32::MAX || a - b < i32::MIN {
            Some(Fault::SubtractionOverflow)
        } else {
            None
        },
        BinaryOp::Multiply => if a * b > i32::MAX || a * b < i32::MIN {
            Some(Fault::MultiplicationOverflow)
        } else {
            None
        },
        BinaryOp::Divide => if b == 0 || (a == i32::MIN && b == -1) {
            Some(Fault::DivisionError)
        } else {
            None
        },
        _ => None,
    }
}

/// Arithmetic is checked: where two operands evaluate to integers whose sum,
/// difference or product overflows 32 bits, or whose quotient does not exist
/// or overflows, the expression ends with the fault of its operator, whatever
/// the operands are and whatever the program has done before.
pub proof fn lemma_checked_arithmetic(
    functions: Seq<(Seq<u8>, FunctionModel)>,
    machine: Machine,
    op: BinaryOp,
    lhs: NodeModel,
    rhs: NodeModel,
    a: i32,
    b: i32,
    after_lhs: Machine,
    after_rhs: Machine,
    fuel: nat,
)
    requires
        eval_node(functions, machine, lhs, fuel) == Ok::<(ValueModel, Machine), Fault>(
            (ValueModel::Integer(a), after_lhs),
        ),
        eval_node(functions, after_lhs, rhs, fuel) == Ok::<(ValueModel, Machine), Fault>(
            (ValueModel::Integer(b), after_rhs),
        ),
        arithmetic_fault(op, a, b) is Some,
    ensures
        eval_node(functions, machine, binary(op, lhs, rhs), fuel + 1) == Err::<
            (ValueModel, Machine),
            Fault,
        >(arithmetic_fault(op, a, b)->Some_0),
{
    assert(binary_result(op, ValueModel::Integer(a), ValueModel::Integer(b)) == Err::<
        ValueModel,
        Fault,
    >(arithmetic_fault(op, a, b)->Some_0));
}

/// A call of a function of the program with another number of arguments than
/// the function has parameters fails with `IncorrectArgumentNumber`, once the
/// arguments are evaluated, whatever their values are.
pub proof fn lemma_call_arity(
    functions: Seq<(Seq<u8>, FunctionModel)>,
    machine: Machine,
    name: Seq<u8>,
    args: Seq<NodeModel>,
    info: FunctionModel,
    values: Seq<ValueModel>,
    after: Machine,
    fuel: nat,
)
    requires
        builtin_named(name) is None,
        find_function(functions, name) == Some(info),
        eval_args(functions, machine, args, 0, Seq::empty(), fuel) == Ok::<
            (Seq<ValueModel>, Machine),
            Fault,
        >((values, after)),
        values.len() != info.args.len(),
    ensures
        eval_node(functions, machine, NodeModel::Function { name, args }, fuel + 1) == Err::<
            (ValueModel, Machine),
            Fault,
        >(Fault::IncorrectArgumentNumber),
{
    assert(((fuel + 1) - 1) as nat == fuel);
    assert(std_function_result(name, values, after.output) is None);
    assert(call_function(functions, info, values, after.output, fuel) == Err::<
        (ValueModel, Seq<u8>),
        Fault,
    >(Fault::IncorrectArgumentNumber));
}

/// Whether an evaluation ran out of fuel.
pub open spec fn out_of_fuel<T>(result: Result<T, Fault>) -> bool {
    result == Err::<T, Fault>(Fault::StepLimit)
}

/// The result of an expression does not depend on the fuel: what an
/// evaluation gives with some fuel, unless it runs out, it gives with more.
pub proof fn lemma_eval_node_fuel(
    functions: Seq<(Seq<u8>, FunctionModel)>,
    machine: Machine,
    node: NodeModel,
    fuel: nat,
    more: nat,
)
    requires
        fuel <= more,
        !out_of_fuel(eval_node(functions, machine, node, fuel)),
    ensures
        eval_node(functions, machine, node, more) == eval_node(functions, machine, node, fuel),
    decreases fuel, 0nat,
{
    let rest = (fuel - 1) as nat;
    let more_rest = (more - 1) as nat;
    match node {
        NodeModel::Binary { op, lhs, rhs } => {
            lemma_eval_node_fuel(functions, machine, *lhs, rest, more_rest);
            match eval_node(functions, machine, *lhs, rest) {
                Ok((_, after_lhs)) => {
                    lemma_eval_node_fuel(functions, after_lhs, *rhs, rest, more_rest);
                },
                Err(_) => {},
            }
        },
        NodeModel::Let { name, var_type, value } => {
            lemma_eval_node_fuel(functions, machine, *value, rest, more_rest);
        },
        NodeModel::Function { name, args } => {
            lemma_eval_args_fuel(functions, machine, args, 0, Seq::empty(), rest, more_rest);
            match eval_args(functions, machine, args, 0, Seq::empty(), rest) {
                Ok((values, after)) => {
                    if std_function_result(name, values, after.output) is None {
                        match find_function(functions, name) {
                            Some(info) => {
                                lemma_call_function_fuel(
                                    functions,
                                    info,
                                    values,
                                    after.output,
                                    rest,
                                    more_rest,
                                );
                            },
                            None => {},
                        }
                    }
                },
                Err(_) => {},
            }
        },
        _ => {},
    }
}

/// The values of arguments do not depend on the fuel.
pub proof fn lemma_eval_args_fuel(
    functions: Seq<(Seq<u8>, FunctionModel)>,
    machine: Machine,
    args: Seq<NodeModel>,
    from: int,
    done: Seq<ValueModel>,
    fuel: nat,
    more: nat,
)
    requires
        fuel <= more,
        !out_of_fuel(eval_args(functions, machine, args, from, done, fuel)),
    ensures
        eval_args(functions, machine, args, from, done, more) == eval_args(
            functions,
            machine,
            args,
            from,
            done,
            fuel,
        ),
    decreases fuel, 1nat,
{
    if 0 <= from < args.len() {
        let rest = (fuel - 1) as nat;
        let more_rest = (more - 1) as nat;
        lemma_eval_node_fuel(functions, machine, args[from], rest, more_rest);
        match eval_node(functions, machine, args[from], rest) {
            Ok((v, after)) => {
                lemma_eval_args_fuel(functions, after, args, from + 1, done.push(v), rest, more_rest);
            },
            Err(_) => {},
        }
    }
}

/// The result of a call does not depend on the fuel.
pub proof fn lemma_call_function_fuel(
    functions: Seq<(Seq<u8>, FunctionModel)>,
    info: FunctionModel,
    args: Seq<ValueModel>,
    output: Seq<u8>,
    fuel: nat,
    more: nat,
)
    requires
        fuel <= more,
        !out_of_fuel(call_function(functions, info, args, output, fuel)),
    ensures
        call_function(functions, info, args, output, more) == call_function(
            functions,
            info,
            args,
            output,
            fuel,
        ),
    decreases fuel, 1nat,
{
    if args.len() == info.args.len() {
        match bind_parameters(Seq::empty(), info.args, args, 0) {
            Ok(variables) => {
                lemma_eval_statements_fuel(
                    functions,
                    Machine { variables, output },
                    info.body,
                    0,
                    (fuel - 1) as nat,
                    (more - 1) as nat,
                );
            },
            Err(_) => {},
        }
    }
}

/// What a list of statements does does not depend on the fuel.
pub proof fn lemma_eval_statements_fuel(
    functions: Seq<(Seq<u8>, FunctionModel)>,
    machine: Machine,
    statements: Seq<StatementModel>,
    from: int,
    fuel: nat,
    more: nat,
)
    requires
        fuel <= more,
        !out_of_fuel(eval_statements(functions, machine, statements, from, fuel)),
    ensures
        eval_statements(functions, machine, statements, from, more) == eval_statements(
            functions,
            machine,
            statements,
            from,
            fuel,
        ),
    decreases fuel, 1nat,
{
    if 0 <= from < statements.len() {
        let rest = (fuel - 1) as nat;
        let more_rest = (more - 1) as nat;
        lemma_eval_statement_fuel(functions, machine, statements[from], rest, more_rest);
        match eval_statement(functions, machine, statements[from], rest) {
            Ok((None, after)) => {
                lemma_eval_statements_fuel(functions, after, statements, from + 1, rest, more_rest);
            },
            _ => {},
        }
    }
}

/// What a statement does does not depend on the fuel.
pub proof fn lemma_eval_statement_fuel(
    functions: Seq<(Seq<u8>, FunctionModel)>,
    machine: Machine,
    statement: StatementModel,
    fuel: nat,
    more: nat,
)
    requires
        fuel <= more,
        !out_of_fuel(eval_statement(functions, machine, statement, fuel)),
    ensures
        eval_statement(functions, machine, statement, more) == eval_statement(
            functions,
            machine,
            statement,
            fuel,
        ),
    decreases fuel, 0nat,
{
    let rest = (fuel - 1) as nat;
    let more_rest = (more - 1) as nat;
    match statement {
        StatementModel::Node(node) => {
            lemma_eval_node_fuel(functions, machine, node, rest, more_rest);
        },
        StatementModel::Return(node) => {
            lemma_eval_node_fuel(functions, machine, node, rest, more_rest);
        },
        StatementModel::If { condition, branch, else_branch } => {
            lemma_eval_node_fuel(functions, machine, condition, rest, more_rest);
            match eval_node(functions, machine, condition, rest) {
                Ok((ValueModel::Boolean(true), after)) => {
                    lemma_eval_statements_fuel(functions, after, branch, 0, rest, more_rest);
                },
                Ok((ValueModel::Boolean(false), after)) => {
                    lemma_eval_statements_fuel(functions, after, else_branch, 0, rest, more_rest);
                },
                _ => {},
            }
        },
        StatementModel::While { condition, loop_statements } => {
            lemma_eval_while_fuel(functions, machine, condition, loop_statements, rest, more_rest);
        },
        StatementModel::InfiniteLoop(body) => {
            lemma_eval_loop_fuel(functions, machine, body, rest, more_rest);
        },
    }
}

/// What a `while` loop does does not depend on the fuel.
pub proof fn lemma_eval_while_fuel(
    functions: Seq<(Seq<u8>, FunctionModel)>,
    machine: Machine,
    condition: NodeModel,
    body: Seq<StatementModel>,
    fuel: nat,
    more: nat,
)
    requires
        fuel <= more,
        !out_of_fuel(eval_while(functions, machine, condition, body, fuel)),
    ensures
        eval_while(functions, machine, condition, body, more) == eval_while(
            functions,
            machine,
            condition,
            body,
            fuel,
        ),
    decreases fuel, 1nat,
{
    let rest = (fuel - 1) as nat;
    let more_rest = (more - 1) as nat;
    lemma_eval_node_fuel(functions, machine, condition, rest, more_rest);
    match eval_node(functions, machine, condition, rest) {
        Ok((ValueModel::Boolean(true), after)) => {
            lemma_eval_statements_fuel(functions, after, body, 0, rest, more_rest);
            match eval_statements(functions, after, body, 0, rest) {
                Ok((None, after_body)) => {
                    lemma_eval_while_fuel(functions, after_body, condition, body, rest, more_rest);
                },
                _ => {},
            }
        },
        _ => {},
    }
}

/// What a `loop` does does not depend on the fuel.
pub proof fn lemma_eval_loop_fuel(
    functions: Seq<(Seq<u8>, FunctionModel)>,
    machine: Machine,
    body: Seq<StatementModel>,
    fuel: nat,
    more: nat,
)
    requires
        fuel <= more,
        !out_of_fuel(eval_loop(functions, machine, body, fuel)),
    ensures
        eval_loop(functions, machine, body, more) == eval_loop(functions, machine, body, fuel),
    decreases fuel, 1nat,
{
    let rest = (fuel - 1) as nat;
    let more_rest = (more - 1) as nat;
    lemma_eval_statements_fuel(functions, machine, body, 0, rest, more_rest);
    match eval_statements(functions, machine, body, 0, rest) {
        Ok((None, after)) => {
            lemma_eval_loop_fuel(functions, after, body, rest, more_rest);
        },
        _ => {},
    }
}

/// The result of a program does not depend on the budget of steps: what a
/// run gives within some budget, unless the budget runs out, it gives within
/// every larger one.
pub proof fn lemma_run_program_fuel(program: ProgramModel, fuel: nat, more: nat)
    requires
        fuel <= more,
        !out_of_fuel(run_program(program, fuel)),
    ensures
        run_program(program, more) == run_program(program, fuel),
{
    lemma_call_function_fuel(
        program.functions,
        entry_function(program),
        Seq::empty(),
        Seq::empty(),
        fuel,
        more,
    );
}

} // verus!
