//! Lowering of whole functions and programs.

use crate::buildnode::{
    BuildState, BuilderModel, Command, LoweringError, LoweringFault, MachineType, deabstract,
    filled_after, lower_statements, machine_type, names_view, scope_after, step, with_variable,
};
use crate::interpreter::entry_function;
use crate::node::{
    AbstractType, Definition, DefinitionModel, FileDescription, FunctionInfo, FunctionModel,
    ProgramModel, definitions_view, functions_view, statements_view,
};
use crate::stdlib::{BUILTIN_COUNT, Builtin};
use crate::text::{copy_bytes, decimal_digits, push_digits};
use vstd::prelude::*;
use vstd::string::StrSliceExecFns;
use vstd::string::StringSliceAdditionalSpecFns;

verus! {

/// The model of the code of one function.
pub ghost struct FunctionCode {
    pub name: Seq<u8>,
    /// The machine types of the parameters.
    pub params: Seq<MachineType>,
    /// The machine type of the result, if the function returns one.
    pub returns: Option<MachineType>,
    /// The commands that build the body.
    pub commands: Seq<Command>,
    pub blocks: nat,
    pub values: nat,
    pub variables: nat,
}

/// The code of one function: its signature and the commands that build its
/// body.
#[derive(Debug)]
pub struct LoweredFunction {
    pub name: Vec<u8>,
    pub params: Vec<MachineType>,
    pub returns: Option<MachineType>,
    pub commands: Vec<Command>,
    /// The number of blocks that the commands make.
    pub blocks: usize,
    /// The number of values that the commands make.
    pub values: usize,
    /// The number of variables that the commands declare.
    pub variables: usize,
}

impl View for LoweredFunction {
    type V = FunctionCode;

    open spec fn view(&self) -> FunctionCode {
        FunctionCode {
            name: self.name@,
            params: self.params@,
            returns: self.returns,
            commands: self.commands@,
            blocks: self.blocks as nat,
            values: self.values as nat,
            variables: self.variables as nat,
        }
    }
}

/// The model of the code of a program.
pub ghost struct ProgramCode {
    /// The names of the functions, each at its number: the built-in ones,
    /// those of the program in the order of their declaration, and the entry
    /// function.
    pub table: Seq<Seq<u8>>,
    /// The code of the functions of the program and, last, of its entry
    /// function.
    pub functions: Seq<FunctionCode>,
    /// The string literals, each with its terminating zero byte, at the
    /// number that names its data object.
    pub data: Seq<Seq<u8>>,
}

/// The code of a program.
#[derive(Debug)]
pub struct LoweredProgram {
    pub table: Vec<Vec<u8>>,
    pub functions: Vec<LoweredFunction>,
    pub data: Vec<Vec<u8>>,
}

/// The models of a list of functions, in order.
pub open spec fn codes_view(functions: Seq<LoweredFunction>) -> Seq<FunctionCode> {
    Seq::new(functions.len(), |i: int| functions[i]@)
}

impl View for LoweredProgram {
    type V = ProgramCode;

    open spec fn view(&self) -> ProgramCode {
        ProgramCode {
            table: names_view(self.table@),
            functions: codes_view(self.functions@),
            data: names_view(self.data@),
        }
    }
}

/// The name of the entry function.
pub open spec fn entry_name() -> Seq<u8> {
    "zinc_main".spec_bytes()
}

/// The name of the data object that holds the string literal at a position:
/// `string` and the position in decimal notation.
pub open spec fn data_name(index: nat) -> Seq<u8> {
    "string".spec_bytes() + decimal_digits(index)
}

/// The name of the data object that holds the string literal at a position.
pub fn data_symbol(index: usize) -> (r: Vec<u8>)
    ensures
        r@ == data_name(index as nat),
{
    let mut r = "string".as_bytes_vec();
    push_digits(&mut r, index as u64);
    r
}

/// The optimization level of the code generator: `speed` where the program
/// is to be optimized, else `none`.
pub fn opt_level(optimize: bool) -> (r: &'static str)
    ensures
        r@ == (if optimize {
            "speed"@
        } else {
            "none"@
        }),
{
    if optimize {
        "speed"
    } else {
        "none"
    }
}

/// The names of the built-in functions, each at its number.
pub open spec fn builtin_names() -> Seq<Seq<u8>> {
    seq![
        Builtin::PrintInt.name(),
        Builtin::PrintBool.name(),
        Builtin::PrintStr.name(),
        Builtin::StrEq.name(),
        Builtin::StrLen.name(),
        Builtin::StrConcat.name(),
        Builtin::AssertIntEq.name(),
        Builtin::AssertBoolEq.name(),
        Builtin::AssertStrEq.name(),
        Builtin::Panic.name(),
    ]
}

/// Adds the names of the built-in functions to a table of functions.
pub fn populate_stdlib(fn_map: &mut Vec<Vec<u8>>)
    ensures
        names_view(final(fn_map)@) == names_view(old(fn_map)@) + builtin_names(),
{
    let ghost start = names_view(fn_map@);
    let mut i: usize = 0;
    assert(names_view(fn_map@) =~= start + builtin_names().subrange(0, 0));
    while i < BUILTIN_COUNT
        invariant
            i <= BUILTIN_COUNT,
            names_view(fn_map@) == start + builtin_names().subrange(0, i as int),
        decreases BUILTIN_COUNT - i,
    {
        let builtin = Builtin::at(i);
        let name = builtin.symbol().as_bytes_vec();
        assert(name@ == builtin_names()[i as int]);
        let ghost before = names_view(fn_map@);
        fn_map.push(name);
        assert(names_view(fn_map@) =~= before.push(name@));
        i = i + 1;
        assert(names_view(fn_map@) =~= start + builtin_names().subrange(0, i as int));
    }
    assert(builtin_names().subrange(0, BUILTIN_COUNT as int) =~= builtin_names());
}

/// The machine types of parameters; an empty list where one is `void`.
pub open spec fn parameter_types(parameters: Seq<DefinitionModel>) -> Seq<MachineType> {
    Seq::new(
        parameters.len(),
        |i: int|
            match machine_type(parameters[i].data_type) {
                Some(t) => t,
                None => MachineType::I32,
            },
    )
}

/// The builder after the parameters from position `from` on were made
/// variables: each is declared, unless a parameter before it has its name,
/// and takes the block parameter at its position.
pub open spec fn lower_parameters(
    state: BuilderModel,
    parameters: Seq<DefinitionModel>,
    from: int,
) -> Result<BuilderModel, LoweringFault>
    decreases parameters.len() - from,
{
    if from < 0 || from >= parameters.len() {
        Ok(state)
    } else {
        match machine_type(parameters[from].data_type) {
            None => Err(LoweringFault::VoidType),
            Some(t) => {
                let (declared, variable) = with_variable(state, parameters[from].name, t);
                lower_parameters(
                    step(
                        declared,
                        Command::DefineParameter {
                            variable: variable as usize,
                            parameter: from as usize,
                        },
                    ),
                    parameters,
                    from + 1,
                )
            },
        }
    }
}

/// The builder at the start of a function: the entry block is made, has the
/// parameters of the function and is the current one.
pub open spec fn entry_state(data: Seq<Seq<u8>>) -> BuilderModel {
    step(
        step(
            step(
                BuilderModel {
                    commands: Seq::empty(),
                    blocks: 0,
                    values: 0,
                    filled: true,
                    variables: Seq::empty(),
                    data,
                },
                Command::CreateBlock,
            ),
            Command::AppendParameters { block: 0 },
        ),
        Command::SwitchToBlock { block: 0 },
    )
}

/// The builder after a whole function: entry block, parameters, body, and a
/// return without a value where the body leaves the last block open.
pub open spec fn lower_function(table: Seq<Seq<u8>>, info: FunctionModel, data: Seq<Seq<u8>>) -> Result<
    BuilderModel,
    LoweringFault,
> {
    match lower_parameters(entry_state(data), info.args, 0) {
        Err(fault) => Err(fault),
        Ok(bound) => match lower_statements(table, bound, info.body, 0) {
            Err(fault) => Err(fault),
            Ok(done) => Ok(
                if done.filled {
                    done
                } else {
                    step(done, Command::ReturnNothing)
                },
            ),
        },
    }
}

/// The code of a function, from the builder after it.
pub open spec fn function_code(name: Seq<u8>, info: FunctionModel, state: BuilderModel) -> FunctionCode {
    FunctionCode {
        name,
        params: parameter_types(info.args),
        returns: machine_type(info.return_type),
        commands: state.commands,
        blocks: state.blocks,
        values: state.values,
        variables: state.variables.len(),
    }
}

/// Whether the commands of a function keep the rules of a builder, leave no
/// block without its terminator, and refer only to what earlier commands
/// made, to functions of a table of `functions` entries and to string
/// literals of a list of `literals` entries, and the function counts what
/// its commands make.
pub open spec fn closed(code: FunctionCode, functions: nat, literals: nat) -> bool {
    &&& filled_after(code.commands) == Some(true)
    &&& match scope_after(code.commands, functions) {
        Some(scope) => scope.blocks == code.blocks && scope.values == code.values
            && scope.variables == code.variables && scope.literals <= literals,
        None => false,
    }
}

/// Lowers a function. `data` holds the string literals of the compilation so
/// far and comes back with those of the function added.
#[verifier::loop_isolation(false)]
pub fn build_func(
    name: Vec<u8>,
    functions: &Vec<Vec<u8>>,
    info: &FunctionInfo,
    data: Vec<Vec<u8>>,
) -> (r: Result<(LoweredFunction, Vec<Vec<u8>>), LoweringError>)
    ensures
        match lower_function(names_view(functions@), info@, names_view(data@)) {
            Err(fault) => r matches Err(e) && e@ == fault,
            Ok(state) => r matches Ok((code, literals)) && code@ == function_code(
                name@,
                info@,
                state,
            ) && names_view(literals@) == state.data && data.len() <= literals.len() && closed(
                code@,
                functions.len() as nat,
                literals.len() as nat,
            ),
        },
{
    let mut state = BuildState::new(functions, data);
    state.emit(Command::CreateBlock);
    state.emit(Command::AppendParameters { block: 0 });
    state.emit(Command::SwitchToBlock { block: 0 });
    let ghost parameters = definitions_view(info.args@);
    let ghost expected = lower_parameters(entry_state(names_view(data@)), parameters, 0);
    let mut params: Vec<MachineType> = Vec::new();
    let mut i: usize = 0;
    while i < info.args.len()
        invariant
            i <= info.args.len(),
            state.wf(),
            !state.filled,
            state.functions == functions,
            state.blocks == 1,
            data.len() <= state.data.len(),
            params@ == parameter_types(parameters).subrange(0, i as int),
            expected == lower_parameters(state@, parameters, i as int),
        decreases info.args.len() - i,
    {
        let t = match deabstract(&info.args[i].data_type) {
            None => {
                return Err(LoweringError::VoidType);
            },
            Some(t) => t,
        };
        let variable = state.get_new_variable(copy_bytes(&info.args[i].name), t);
        state.emit(Command::DefineParameter { variable, parameter: i });
        params.push(t);
        i = i + 1;
        assert(params@ =~= parameter_types(parameters).subrange(0, i as int));
    }
    assert(parameter_types(parameters).subrange(0, i as int) =~= parameter_types(parameters));
    match state.build_statements(&info.body) {
        Err(e) => {
            return Err(e);
        },
        Ok(_) => {},
    }
    if !state.filled {
        state.emit(Command::ReturnNothing);
    }
    let BuildState {
        commands,
        blocks,
        values,
        filled: _,
        variables,
        data: literals,
        functions: _,
        arguments: _,
        literals: _,
    } = state;
    let code = LoweredFunction {
        name,
        params,
        returns: deabstract(&info.return_type),
        commands,
        blocks,
        values,
        variables: variables.len(),
    };
    Ok((code, literals))
}

/// The names of the functions of a program, each at its number.
pub open spec fn function_table(program: ProgramModel) -> Seq<Seq<u8>> {
    builtin_names() + Seq::new(program.functions.len(), |i: int| program.functions[i].0).push(
        entry_name(),
    )
}

/// The code of the functions from position `from` on, added to `done`, and
/// the string literals after them.
pub open spec fn lower_functions(
    table: Seq<Seq<u8>>,
    functions: Seq<(Seq<u8>, FunctionModel)>,
    from: int,
    done: Seq<FunctionCode>,
    data: Seq<Seq<u8>>,
) -> Result<(Seq<FunctionCode>, Seq<Seq<u8>>), LoweringFault>
    decreases functions.len() - from,
{
    if from < 0 || from >= functions.len() {
        Ok((done, data))
    } else {
        match lower_function(table, functions[from].1, data) {
            Err(fault) => Err(fault),
            Ok(state) => lower_functions(
                table,
                functions,
                from + 1,
                done.push(function_code(functions[from].0, functions[from].1, state)),
                state.data,
            ),
        }
    }
}

/// The code of a program: every function of the program in the order of its
/// declaration, then the entry function, which is made of the top-level
/// statements. Every function can call every other, and itself.
pub open spec fn lower_program(program: ProgramModel) -> Result<ProgramCode, LoweringFault> {
    let table = function_table(program);
    match lower_functions(table, program.functions, 0, Seq::empty(), Seq::empty()) {
        Err(fault) => Err(fault),
        Ok((declared, data)) => match lower_function(table, entry_function(program), data) {
            Err(fault) => Err(fault),
            Ok(state) => Ok(
                ProgramCode {
                    table,
                    functions: declared.push(
                        function_code(entry_name(), entry_function(program), state),
                    ),
                    data: state.data,
                },
            ),
        },
    }
}

/// Whether every function of a list is closed, with every string literal it
/// refers to among the first `literals`.
pub open spec fn all_closed(functions: Seq<FunctionCode>, table: nat, literals: nat) -> bool {
    forall|i: int| 0 <= i < functions.len() ==> closed(#[trigger] functions[i], table, literals)
}

/// Lowers a program.
#[verifier::loop_isolation(false)]
pub fn build_program(file_description: FileDescription) -> (r: Result<LoweredProgram, LoweringError>)
    ensures
        match lower_program(file_description@) {
            Err(fault) => r matches Err(e) && e@ == fault,
            Ok(code) => r matches Ok(lowered) && lowered@ == code && all_closed(
                code.functions,
                code.table.len(),
                code.data.len(),
            ),
        },
{
    let FileDescription { statements, functions } = file_description;
    let ghost program = file_description@;
    let mut table: Vec<Vec<u8>> = Vec::new();
    assert(names_view(table@) =~= Seq::empty());
    populate_stdlib(&mut table);
    let ghost declared_names = Seq::new(program.functions.len(), |i: int| program.functions[i].0);
    let mut i: usize = 0;
    assert(names_view(table@) =~= builtin_names() + declared_names.subrange(0, 0));
    while i < functions.len()
        invariant
            i <= functions.len(),
            program.functions == functions_view(functions@),
            names_view(table@) == builtin_names() + declared_names.subrange(0, i as int),
        decreases functions.len() - i,
    {
        let ghost before = names_view(table@);
        let name = copy_bytes(&functions[i].0);
        table.push(name);
        assert(names_view(table@) =~= before.push(name@));
        i = i + 1;
        assert(names_view(table@) =~= builtin_names() + declared_names.subrange(0, i as int));
    }
    let ghost before = names_view(table@);
    let main_name = "zinc_main".as_bytes_vec();
    table.push(copy_bytes(&main_name));
    assert(names_view(table@) =~= before.push(entry_name()));
    assert(declared_names.subrange(0, functions.len() as int) =~= declared_names);
    assert(names_view(table@) == function_table(program));

    let mut lowered: Vec<LoweredFunction> = Vec::new();
    let mut data: Vec<Vec<u8>> = Vec::new();
    assert(codes_view(lowered@) =~= Seq::empty());
    assert(names_view(data@) =~= Seq::empty());
    let mut k: usize = 0;
    while k < functions.len()
        invariant
            k <= functions.len(),
            program.functions == functions_view(functions@),
            names_view(table@) == function_table(program),
            all_closed(codes_view(lowered@), table.len() as nat, data.len() as nat),
            lower_functions(
                function_table(program),
                program.functions,
                0,
                Seq::empty(),
                Seq::empty(),
            ) == lower_functions(
                function_table(program),
                program.functions,
                k as int,
                codes_view(lowered@),
                names_view(data@),
            ),
        decreases functions.len() - k,
    {
        let built = build_func(copy_bytes(&functions[k].0), &table, &functions[k].1, data);
        match built {
            Err(e) => {
                return Err(e);
            },
            Ok((code, literals)) => {
                let ghost before = codes_view(lowered@);
                let ghost model = code@;
                lowered.push(code);
                assert(codes_view(lowered@) =~= before.push(model));
                data = literals;
            },
        }
        k = k + 1;
    }
    let info = FunctionInfo { body: statements, args: Vec::new(), return_type: AbstractType::Void };
    assert(info@ == entry_function(program)) by {
        assert(definitions_view(info.args@) =~= Seq::empty());
    }
    match build_func(main_name, &table, &info, data) {
        Err(e) => Err(e),
        Ok((code, literals)) => {
            let ghost before = codes_view(lowered@);
            let ghost model = code@;
            lowered.push(code);
            assert(codes_view(lowered@) =~= before.push(model));
            Ok(LoweredProgram { table, functions: lowered, data: literals })
        },
    }
}

} // verus!
