use zink::buildfunc::{build_func, build_program, data_symbol, opt_level, populate_stdlib};
use zink::buildnode::{
    deabstract, find_last, BuildState, Command, LoweringError, MachineType, Operation,
};
use zink::node::{AbstractType, FunctionInfo, Node, Statement};
use zink::parse::parse;
use zink::stdlib::{find_builtin, Builtin, BUILTIN_COUNT};

fn name(text: &str) -> Vec<u8> {
    text.as_bytes().to_vec()
}

fn entry() -> Vec<Command> {
    vec![
        Command::CreateBlock,
        Command::AppendParameters { block: 0 },
        Command::SwitchToBlock { block: 0 },
    ]
}

#[test]
fn machine_types() {
    assert_eq!(deabstract(&AbstractType::Integer), Some(MachineType::I32));
    assert_eq!(deabstract(&AbstractType::Boolean), Some(MachineType::B1));
    assert_eq!(deabstract(&AbstractType::String), Some(MachineType::Pointer));
    assert_eq!(deabstract(&AbstractType::Void), None);
}

#[test]
fn the_table_of_built_ins() {
    let mut table = vec![name("first")];
    populate_stdlib(&mut table);
    let names = [
        "first",
        "print_int",
        "print_bool",
        "print_str",
        "str_eq",
        "str_len",
        "str_concat",
        "assert_int_eq",
        "assert_bool_eq",
        "assert_str_eq",
        "panic",
    ];
    assert_eq!(table.len(), names.len());
    for (found, expected) in table.iter().zip(names.iter()) {
        assert_eq!(*found, name(expected));
    }
    assert_eq!(BUILTIN_COUNT, 10);
    assert_eq!(find_builtin(&name("str_concat")), Some(Builtin::StrConcat));
    assert_eq!(find_builtin(&name("str_cat")), None);
    assert_eq!(Builtin::at(5), Builtin::StrConcat);
    assert_eq!(Builtin::StrConcat.symbol(), "str_concat");
    assert_eq!(
        Builtin::StrConcat.parameters(),
        vec![AbstractType::String, AbstractType::String]
    );
    assert_eq!(Builtin::StrConcat.return_type(), AbstractType::String);
    assert_eq!(Builtin::StrLen.return_type(), AbstractType::Integer);
    assert_eq!(Builtin::StrEq.return_type(), AbstractType::Boolean);
    assert_eq!(Builtin::PrintInt.return_type(), AbstractType::Void);
    assert_eq!(Builtin::Panic.parameters(), vec![]);
    assert_eq!(find_last(&table, &name("panic")), Some(10));
}

#[test]
fn a_call_with_a_sum() {
    let program = build_program(parse("print_int(60 + 9);").unwrap()).unwrap();
    assert_eq!(program.table.len(), 11);
    assert_eq!(program.table[10], name("zinc_main"));
    assert_eq!(program.functions.len(), 1);
    let main = &program.functions[0];
    assert_eq!(main.name, name("zinc_main"));
    assert_eq!(main.params, vec![]);
    assert_eq!(main.returns, None);
    let mut expected = entry();
    expected.extend(vec![
        Command::IntegerConstant { value: 60 },
        Command::IntegerConstant { value: 9 },
        Command::Operate { operation: Operation::Add, lhs: 0, rhs: 1 },
        Command::Argument { value: 2 },
        Command::Call { function: 0, arguments: 1 },
        Command::ReturnNothing,
    ]);
    assert_eq!(main.commands, expected);
    assert_eq!(main.blocks, 1);
    assert_eq!(main.values, 4);
    assert_eq!(main.variables, 0);
    assert!(program.data.is_empty());
}

#[test]
fn a_while_loop_has_three_blocks() {
    let code = "let n: i32 = 3; while (n > 0) { let n: i32 = n - 1; }";
    let program = build_program(parse(code).unwrap()).unwrap();
    let main = &program.functions[0];
    let mut expected = entry();
    expected.extend(vec![
        Command::DeclareVariable { variable: 0, machine_type: MachineType::I32 },
        Command::IntegerConstant { value: 3 },
        Command::DefineVariable { variable: 0, value: 0 },
        Command::UseVariable { variable: 0 },
        Command::CreateBlock,
        Command::Jump { block: 1 },
        Command::CreateBlock,
        Command::CreateBlock,
        Command::SwitchToBlock { block: 1 },
        Command::UseVariable { variable: 0 },
        Command::IntegerConstant { value: 0 },
        Command::Operate { operation: Operation::SignedGreaterThan, lhs: 2, rhs: 3 },
        Command::BranchIfNonZero { condition: 4, block: 2 },
        Command::Jump { block: 3 },
        Command::SwitchToBlock { block: 2 },
        Command::UseVariable { variable: 0 },
        Command::IntegerConstant { value: 1 },
        Command::Operate { operation: Operation::Subtract, lhs: 5, rhs: 6 },
        Command::DefineVariable { variable: 0, value: 7 },
        Command::UseVariable { variable: 0 },
        Command::Jump { block: 1 },
        Command::SwitchToBlock { block: 3 },
        Command::ReturnNothing,
    ]);
    assert_eq!(main.commands, expected);
    assert_eq!(main.blocks, 4);
    assert_eq!(main.values, 9);
    assert_eq!(main.variables, 1);
}

#[test]
fn an_if_whose_branches_both_return_has_no_block_after_it() {
    let code = "fn f(b: bool) -> i32 { if (b) { return 1; } else { return 2; } print_int(3); }";
    let program = build_program(parse(code).unwrap()).unwrap();
    assert_eq!(program.table[10], name("f"));
    assert_eq!(program.table[11], name("zinc_main"));
    let f = &program.functions[0];
    assert_eq!(f.name, name("f"));
    assert_eq!(f.params, vec![MachineType::B1]);
    assert_eq!(f.returns, Some(MachineType::I32));
    let mut expected = entry();
    expected.extend(vec![
        Command::DeclareVariable { variable: 0, machine_type: MachineType::B1 },
        Command::DefineParameter { variable: 0, parameter: 0 },
        Command::UseVariable { variable: 0 },
        Command::CreateBlock,
        Command::BranchIfNonZero { condition: 0, block: 1 },
        Command::CreateBlock,
        Command::Jump { block: 2 },
        Command::SwitchToBlock { block: 2 },
        Command::IntegerConstant { value: 2 },
        Command::Return { value: 1 },
        Command::SwitchToBlock { block: 1 },
        Command::IntegerConstant { value: 1 },
        Command::Return { value: 2 },
    ]);
    assert_eq!(f.commands, expected);
    assert_eq!(f.blocks, 3);
    let mut expected = entry();
    expected.push(Command::ReturnNothing);
    assert_eq!(program.functions[1].commands, expected);
}

#[test]
fn an_if_without_else_goes_on_in_a_block_of_its_own() {
    let program = build_program(parse("if (true) { panic(); } panic();").unwrap()).unwrap();
    let mut expected = entry();
    expected.extend(vec![
        Command::BooleanConstant { value: true },
        Command::CreateBlock,
        Command::BranchIfNonZero { condition: 0, block: 1 },
        Command::CreateBlock,
        Command::Jump { block: 2 },
        Command::SwitchToBlock { block: 2 },
        Command::CreateBlock,
        Command::Jump { block: 3 },
        Command::SwitchToBlock { block: 1 },
        Command::Call { function: 9, arguments: 0 },
        Command::Jump { block: 3 },
        Command::SwitchToBlock { block: 3 },
        Command::Call { function: 9, arguments: 0 },
        Command::ReturnNothing,
    ]);
    assert_eq!(program.functions[0].commands, expected);
}

#[test]
fn an_if_whose_else_returns_makes_its_block_late() {
    let code = "fn f() -> i32 { if (true) { } else { return 2; } return 1; }";
    let program = build_program(parse(code).unwrap()).unwrap();
    let mut expected = entry();
    expected.extend(vec![
        Command::BooleanConstant { value: true },
        Command::CreateBlock,
        Command::BranchIfNonZero { condition: 0, block: 1 },
        Command::CreateBlock,
        Command::Jump { block: 2 },
        Command::SwitchToBlock { block: 2 },
        Command::IntegerConstant { value: 2 },
        Command::Return { value: 1 },
        Command::SwitchToBlock { block: 1 },
        Command::CreateBlock,
        Command::Jump { block: 3 },
        Command::SwitchToBlock { block: 3 },
        Command::IntegerConstant { value: 1 },
        Command::Return { value: 2 },
    ]);
    assert_eq!(program.functions[0].commands, expected);
}

#[test]
fn nothing_is_lowered_after_an_endless_loop() {
    let program = build_program(parse("loop { panic(); } print_int(1);").unwrap()).unwrap();
    let mut expected = entry();
    expected.extend(vec![
        Command::CreateBlock,
        Command::Jump { block: 1 },
        Command::SwitchToBlock { block: 1 },
        Command::Call { function: 9, arguments: 0 },
        Command::Jump { block: 1 },
    ]);
    assert_eq!(program.functions[0].commands, expected);
}

#[test]
fn boolean_comparison_widens_its_operands() {
    let program = build_program(parse("true !? false;").unwrap()).unwrap();
    let mut expected = entry();
    expected.extend(vec![
        Command::BooleanConstant { value: true },
        Command::BooleanConstant { value: false },
        Command::Widen { value: 0 },
        Command::Widen { value: 1 },
        Command::Operate { operation: Operation::NotEqual, lhs: 2, rhs: 3 },
        Command::ReturnNothing,
    ]);
    assert_eq!(program.functions[0].commands, expected);
}

#[test]
fn string_literals_are_numbered_over_the_whole_program() {
    let code = "fn f() -> str { return \"in\"; } print_str(\"out\"); print_str(f());";
    let program = build_program(parse(code).unwrap()).unwrap();
    assert_eq!(program.data, vec![b"in\0".to_vec(), b"out\0".to_vec()]);
    assert!(program.functions[0].commands.contains(&Command::Symbol { data: 0 }));
    assert!(program.functions[1].commands.contains(&Command::Symbol { data: 1 }));
    assert!(program.functions[1].commands.contains(&Command::Call { function: 10, arguments: 0 }));
}

#[test]
fn nested_calls_add_their_arguments_in_turn() {
    let code = "fn g(a: i32) -> i32 { return a; } print_int(g(1));";
    let program = build_program(parse(code).unwrap()).unwrap();
    let mut expected = entry();
    expected.extend(vec![
        Command::IntegerConstant { value: 1 },
        Command::Argument { value: 0 },
        Command::Call { function: 10, arguments: 1 },
        Command::Argument { value: 1 },
        Command::Call { function: 0, arguments: 1 },
        Command::ReturnNothing,
    ]);
    assert_eq!(program.functions[1].commands, expected);
}

#[test]
fn what_cannot_be_lowered() {
    match build_program(parse("print_int(x);").unwrap()) {
        Err(LoweringError::UndeclaredVariable(found)) => assert_eq!(found, name("x")),
        other => panic!("{:?}", other),
    }
    match build_program(parse("f(1);").unwrap()) {
        Err(LoweringError::UndefinedFunction(found)) => assert_eq!(found, name("f")),
        other => panic!("{:?}", other),
    }
    assert!(matches!(
        build_program(parse("let x: void = 1;").unwrap()),
        Err(LoweringError::VoidType)
    ));
    assert!(matches!(
        build_program(parse("fn f(a: void) -> void { }").unwrap()),
        Err(LoweringError::VoidType)
    ));
}

#[test]
fn a_builder_counts_what_it_makes() {
    let table = vec![name("f")];
    let mut state = BuildState::new(&table, vec![]);
    state.emit(Command::CreateBlock);
    state.emit(Command::SwitchToBlock { block: 0 });
    assert_eq!(state.get_new_variable(name("x"), MachineType::I32), 0);
    assert_eq!(state.get_new_variable(name("y"), MachineType::B1), 1);
    assert_eq!(state.get_new_variable(name("x"), MachineType::B1), 0);
    let value = state.build_node(&Node::Function { name: name("f"), args: vec![Node::Int(5)] });
    assert_eq!(value.unwrap(), 1);
    state
        .build_statements(&vec![Statement::Return(Node::Get { name: name("y") }), Statement::Node(Node::Int(1))])
        .unwrap();
    assert!(state.filled);
    assert_eq!(state.blocks, 1);
    assert_eq!(state.values, 3);
    assert_eq!(
        state.commands,
        vec![
            Command::CreateBlock,
            Command::SwitchToBlock { block: 0 },
            Command::DeclareVariable { variable: 0, machine_type: MachineType::I32 },
            Command::DeclareVariable { variable: 1, machine_type: MachineType::B1 },
            Command::IntegerConstant { value: 5 },
            Command::Argument { value: 0 },
            Command::Call { function: 0, arguments: 1 },
            Command::UseVariable { variable: 1 },
            Command::Return { value: 2 },
        ]
    );
}

#[test]
fn a_function_is_lowered_with_the_literals_so_far() {
    let table = vec![];
    let info = FunctionInfo {
        body: vec![Statement::Return(Node::StringLiteral(name("b")))],
        args: vec![],
        return_type: AbstractType::String,
    };
    let (code, data) = build_func(name("f"), &table, &info, vec![b"a\0".to_vec()]).unwrap();
    assert_eq!(data, vec![b"a\0".to_vec(), b"b\0".to_vec()]);
    assert_eq!(code.returns, Some(MachineType::Pointer));
    let mut expected = entry();
    expected.extend(vec![Command::Symbol { data: 1 }, Command::Return { value: 0 }]);
    assert_eq!(code.commands, expected);
}

/// The program of the run in process, taken as far as the library takes it:
/// lowered for the code module, and run by the interpreter.
#[test]
fn test_jit() {
    let code = r#"
		let z: i32 = 2 + 3;
		assert_int_eq(z, 5);
		if (z == 5) {
			let n: i32 = 5;
			while (n > 0) {
				let n: i32 = n - 1;
			}
			assert_int_eq(n, 0);
		} else {
			panic();
		}
	"#;
    let file_description = parse(code).expect("failed to parse");
    let program = build_program(file_description).expect("failed to lower");
    assert_eq!(program.functions.len(), 1);
    let main = &program.functions[0];
    assert_eq!(main.name, name("zinc_main"));
    assert_eq!(main.blocks, 7);
    assert_eq!(main.variables, 2);
    assert_eq!(main.commands.last(), Some(&Command::ReturnNothing));
    assert!(main.commands.contains(&Command::Call { function: 6, arguments: 2 }));
    assert!(main.commands.contains(&Command::Call { function: 9, arguments: 0 }));

    let file_description = parse(code).expect("failed to parse");
    assert_eq!(zink::interpreter::interpret(file_description).expect("no runtime failures"), "");
}

#[test]
fn data_objects_are_named_by_their_number() {
    assert_eq!(data_symbol(0), b"string0".to_vec());
    assert_eq!(data_symbol(7), b"string7".to_vec());
    assert_eq!(data_symbol(120), b"string120".to_vec());
}

#[test]
fn optimization_levels() {
    assert_eq!(opt_level(true), "speed");
    assert_eq!(opt_level(false), "none");
}
