use zink::interpreter::{interpret, interpret_bytes, try_std_function, RuntimeResult, Value};
use zink::node::{AbstractType, Definition, FileDescription, FunctionInfo, Node, Statement};
use zink::parse::parse;
use zink::{run_interpreter, RunError};

fn run(code: &str) -> Result<String, RuntimeResult> {
    interpret(parse(code).expect("failed to parse"))
}

fn name(text: &str) -> Vec<u8> {
    text.as_bytes().to_vec()
}

#[test]
fn test_interpreter() {
    let file_description = parse(
        r#"
		assert_int_eq(2 + 3, 5);
		assert_int_eq(3 - 2, 1);
		assert_int_eq(5 * 5, 25);
		assert_int_eq(9 / 3, 3);

		assert_bool_eq(1 + 1 == 2, true);
		assert_bool_eq(3 * 5 != 15, false);

		if (false) {
			panic();
		} else {
			assert_bool_eq(true !? false, true);
		}

		if (true) {
			assert_bool_eq(true =? true, true);
		} else {
			panic();
		}

		assert_bool_eq(3 <= 3, true);
		assert_bool_eq(3 >= 3, true);
		assert_bool_eq(3 < 3, false);
		assert_bool_eq(3 > 3, false);
		assert_bool_eq(2 > 1, true);
		assert_bool_eq(1 < 2, true);

		let x: i32 = 3 * 3 + 1;
		assert_int_eq(x, 10);

		let y: bool = x == 10;
		assert_bool_eq(y, true);

		let n: i32 = 50;
		while (n > 0) {
			let n: i32 = n - 1;
		}
		assert_int_eq(n, 0);

		let s: str = "bruh";
		assert_int_eq(str_len(s), 4);

		fn square(n: i32) -> i32 {
			return n * n;
		}
		assert_int_eq(square(5), 25);

		fn cube(n: i32) -> i32 {
			return square(n) * n;
		}
		assert_int_eq(cube(5), 125);

		assert_str_eq(str_concat("br", "uh"), "bruh");

		print_int(60 + 9);
	"#,
    )
    .expect("failed to parse");

    assert_eq!(interpret(file_description).expect("no runtime failures"), "69\n");
}

#[test]
fn prints_a_sum() {
    assert_eq!(run("print_int(60 + 9);").unwrap(), "69\n");
}

#[test]
fn prints_a_string_after_measuring_it() {
    let code = r#"let s: str = "bruh"; assert_int_eq(str_len(s), 4); print_str(s);"#;
    assert_eq!(run(code).unwrap(), "bruh\n");
}

#[test]
fn a_let_in_a_loop_body_rebinds_the_variable_of_the_function() {
    let code = "let n: i32 = 3; while (n > 0) { let n: i32 = n - 1; } assert_int_eq(n, 0);";
    assert_eq!(run(code).unwrap(), "");
}

#[test]
fn a_let_in_a_branch_is_seen_after_the_branch() {
    let code = "let x: i32 = 1; if (true) { let x: i32 = 2; } print_int(x);";
    assert_eq!(run(code).unwrap(), "2\n");
}

#[test]
fn calls_a_user_function() {
    let code = "fn sq(n: i32) -> i32 { return n * n; } print_int(sq(7));";
    assert_eq!(run(code).unwrap(), "49\n");
}

#[test]
fn a_function_may_be_declared_after_its_call() {
    let code = "print_int(twice(4)); fn twice(n: i32) -> i32 { return n + n; }";
    assert_eq!(run(code).unwrap(), "8\n");
}

#[test]
fn compares_booleans() {
    let code = "if (true =? true) { print_bool(true); } else { panic(); }";
    assert_eq!(run(code).unwrap(), "true\n");
    assert_eq!(run("print_bool(true !? true);").unwrap(), "false\n");
}

#[test]
fn concatenates_strings() {
    assert_eq!(run(r#"print_str(str_concat("br", "uh"));"#).unwrap(), "bruh\n");
}

#[test]
fn compares_strings() {
    assert_eq!(run(r#"print_bool(str_eq("a", "a"));"#).unwrap(), "true\n");
    assert_eq!(run(r#"print_bool(str_eq("a", "b"));"#).unwrap(), "false\n");
    assert!(matches!(run(r#"assert_str_eq("a", "b");"#), Err(RuntimeResult::Panic)));
    assert!(matches!(run("assert_bool_eq(true, false);"), Err(RuntimeResult::Panic)));
}

#[test]
fn string_length_counts_bytes() {
    assert_eq!(run("print_int(str_len(\"h\u{e9}\"));").unwrap(), "3\n");
    assert_eq!(run("print_str(\"h\u{e9}\");").unwrap(), "h\u{e9}\n");
}

#[test]
fn prints_every_integer_literal_back() {
    assert_eq!(run("let x: i32 = 0; print_int(x);").unwrap(), "0\n");
    assert_eq!(run("let x: i32 = -7; print_int(x);").unwrap(), "-7\n");
    assert_eq!(run("let x: i32 = 1000; print_int(x);").unwrap(), "1000\n");
    assert_eq!(run("let x: i32 = 2147483647; print_int(x);").unwrap(), "2147483647\n");
    assert_eq!(run("let x: i32 = -2147483648; print_int(x);").unwrap(), "-2147483648\n");
}

#[test]
fn division_rounds_towards_zero() {
    assert_eq!(run("print_int(7 / 2);").unwrap(), "3\n");
    assert_eq!(run("print_int(-7 / 2);").unwrap(), "-3\n");
    assert_eq!(run("print_int(7 / -2);").unwrap(), "-3\n");
    assert_eq!(run("print_int(-7 / -2);").unwrap(), "3\n");
}

#[test]
fn arithmetic_is_checked() {
    assert!(matches!(run("print_int(2147483647 + 1);"), Err(RuntimeResult::AdditionOverflow)));
    assert!(matches!(run("print_int(-2147483648 - 1);"), Err(RuntimeResult::SubtractionOverflow)));
    assert!(matches!(run("print_int(65536 * 65536);"), Err(RuntimeResult::MultiplicationOverflow)));
    assert!(matches!(run("print_int(1 / 0);"), Err(RuntimeResult::DivisionError)));
    assert!(matches!(run("print_int(-2147483648 / -1);"), Err(RuntimeResult::DivisionError)));
    assert_eq!(run("print_int(2147483646 + 1);").unwrap(), "2147483647\n");
}

#[test]
fn wrong_number_of_arguments() {
    let code = "fn sq(n: i32) -> i32 { return n * n; } print_int(sq(1, 2));";
    assert!(matches!(run(code), Err(RuntimeResult::IncorrectArgumentNumber)));
    let code = "fn sq(n: i32) -> i32 { return n * n; } print_int(sq());";
    assert!(matches!(run(code), Err(RuntimeResult::IncorrectArgumentNumber)));
    assert!(matches!(run("print_int();"), Err(RuntimeResult::IncorrectArgumentNumber)));
    assert!(matches!(run("print_int(1, 2);"), Err(RuntimeResult::IncorrectArgumentNumber)));
}

#[test]
fn type_errors() {
    match run("print_int(true);") {
        Err(RuntimeResult::TypeError(message)) => assert_eq!(message, "print_int only prints integers"),
        other => panic!("{:?}", other),
    }
    match run("let x: i32 = true;") {
        Err(RuntimeResult::TypeError(message)) => {
            assert_eq!(message, "value must be same type as variable is declared")
        }
        other => panic!("{:?}", other),
    }
    match run("print_int(1 + true);") {
        Err(RuntimeResult::TypeError(message)) => assert_eq!(message, "cannot add non-integers"),
        other => panic!("{:?}", other),
    }
    match run("if (1) { }") {
        Err(RuntimeResult::TypeError(message)) => assert_eq!(message, "if condition must be boolean"),
        other => panic!("{:?}", other),
    }
    match run("while (1) { }") {
        Err(RuntimeResult::TypeError(message)) => {
            assert_eq!(message, "while condition must be boolean")
        }
        other => panic!("{:?}", other),
    }
    match run("fn f(n: i32) -> i32 { return n; } f(true);") {
        Err(RuntimeResult::TypeError(message)) => {
            assert_eq!(message, "user-defined function called with incorrect arguments")
        }
        other => panic!("{:?}", other),
    }
}

#[test]
fn undefined_names() {
    match run("print_int(x);") {
        Err(RuntimeResult::UndefinedVariable(found)) => assert_eq!(found, name("x")),
        other => panic!("{:?}", other),
    }
    match run("f(1);") {
        Err(RuntimeResult::UndefinedFunction(found)) => assert_eq!(found, name("f")),
        other => panic!("{:?}", other),
    }
}

#[test]
fn variables_do_not_cross_function_boundaries() {
    let code = "let x: i32 = 1; fn f() -> i32 { return x; } print_int(f());";
    assert!(matches!(run(code), Err(RuntimeResult::UndefinedVariable(_))));
}

#[test]
fn panic_stops_the_program() {
    assert!(matches!(run("print_int(1); panic(); print_int(2);"), Err(RuntimeResult::Panic)));
    assert!(matches!(run("assert_int_eq(1, 2);"), Err(RuntimeResult::Panic)));
}

#[test]
fn an_endless_loop_ends_with_a_return_or_with_the_budget() {
    let code = "fn f() -> i32 { let n: i32 = 0; loop { let n: i32 = n + 1; if (n == 5) { return n; } } } print_int(f());";
    assert_eq!(run(code).unwrap(), "5\n");
    let endless = parse("loop { }").expect("failed to parse");
    assert!(matches!(interpret_bytes(endless, 1000), Err(RuntimeResult::StepLimit)));
}

#[test]
fn the_budget_bounds_the_depth_of_the_evaluation() {
    let program = parse("print_int(1);").expect("failed to parse");
    assert!(matches!(interpret_bytes(program, 0), Err(RuntimeResult::StepLimit)));
    let program = parse("print_int(1);").expect("failed to parse");
    assert!(matches!(interpret_bytes(program, 5), Err(RuntimeResult::StepLimit)));
    let program = parse("print_int(1);").expect("failed to parse");
    assert_eq!(interpret_bytes(program, 6).unwrap(), b"1\n".to_vec());
}

#[test]
fn recursion() {
    let code = "fn fact(n: i32) -> i32 { if (n <= 1) { return 1; } return n * fact(n - 1); } print_int(fact(10));";
    assert_eq!(run(code).unwrap(), "3628800\n");
}

#[test]
fn the_last_declaration_of_a_name_counts() {
    let code = "fn f() -> i32 { return 1; } fn f() -> i32 { return 2; } print_int(f());";
    assert_eq!(run(code).unwrap(), "2\n");
}

#[test]
fn a_function_without_return_gives_no_value() {
    let info = FunctionInfo { body: vec![], args: vec![], return_type: AbstractType::Void };
    let program = FileDescription {
        statements: vec![Statement::Node(Node::Let {
            name: name("x"),
            var_type: AbstractType::Void,
            value: Box::new(Node::Function { name: name("f"), args: vec![] }),
        })],
        functions: vec![(name("f"), info)],
    };
    assert_eq!(interpret(program).unwrap(), "");
}

#[test]
fn parameters_are_bound_by_position() {
    let info = FunctionInfo {
        body: vec![Statement::Return(Node::Subtract {
            lhs: Box::new(Node::Get { name: name("a") }),
            rhs: Box::new(Node::Get { name: name("b") }),
        })],
        args: vec![
            Definition { name: name("a"), data_type: AbstractType::Integer },
            Definition { name: name("b"), data_type: AbstractType::Integer },
        ],
        return_type: AbstractType::Integer,
    };
    let program = FileDescription {
        statements: vec![Statement::Node(Node::Function {
            name: name("print_int"),
            args: vec![Node::Function { name: name("f"), args: vec![Node::Int(10), Node::Int(3)] }],
        })],
        functions: vec![(name("f"), info)],
    };
    assert_eq!(interpret(program).unwrap(), "7\n");
}

#[test]
fn built_ins_return_zero_where_they_return_nothing() {
    let mut output = Vec::new();
    let result = try_std_function(&name("print_int"), &vec![Value::Integer(-12)], &mut output);
    assert!(matches!(result, Ok(Some(Value::Integer(0)))));
    assert_eq!(output, b"-12\n".to_vec());
    let result = try_std_function(&name("nothing"), &vec![], &mut output);
    assert!(matches!(result, Ok(None)));
    assert_eq!(output, b"-12\n".to_vec());
}

#[test]
fn values_have_types() {
    assert_eq!(Value::Integer(1).to_abstract(), AbstractType::Integer);
    assert_eq!(Value::Boolean(true).to_abstract(), AbstractType::Boolean);
    assert_eq!(Value::String(name("a")).to_abstract(), AbstractType::String);
    assert_eq!(Value::Void.to_abstract(), AbstractType::Void);
}

#[test]
fn run_interpreter_parses_and_runs() {
    assert_eq!(run_interpreter("print_int(60 + 9);").unwrap(), "69\n");
    assert!(matches!(run_interpreter("print_int(60 + 9)"), Err(RunError::Parse(_))));
    assert!(matches!(
        run_interpreter("panic();"),
        Err(RunError::Runtime(RuntimeResult::Panic))
    ));
}
