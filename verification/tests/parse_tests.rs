use zink::grammar::{ParseError, Rule};
use zink::node::{AbstractType, Node, Statement};
use zink::parse::{parse, parse_bytes};

fn name(text: &str) -> Vec<u8> {
    text.as_bytes().to_vec()
}

fn error(code: &str) -> ParseError {
    match parse(code) {
        Err(e) => e,
        Ok(_) => panic!("parsed: {}", code),
    }
}

#[test]
fn binary_expressions_fold_from_the_left() {
    let program = parse("1 + 2 * 3;").unwrap();
    assert_eq!(program.statements.len(), 1);
    match &program.statements[0] {
        Statement::Node(Node::Multiply { lhs, rhs }) => {
            assert!(matches!(**rhs, Node::Int(3)));
            match &**lhs {
                Node::Add { lhs, rhs } => {
                    assert!(matches!(**lhs, Node::Int(1)));
                    assert!(matches!(**rhs, Node::Int(2)));
                }
                other => panic!("{:?}", other),
            }
        }
        other => panic!("{:?}", other),
    }
}

#[test]
fn parentheses_group() {
    let program = parse("1 + (2 * 3);").unwrap();
    match &program.statements[0] {
        Statement::Node(Node::Add { lhs, rhs }) => {
            assert!(matches!(**lhs, Node::Int(1)));
            assert!(matches!(**rhs, Node::Multiply { .. }));
        }
        other => panic!("{:?}", other),
    }
}

#[test]
fn every_operator_has_its_node() {
    let program = parse(
        "a + b; a - b; a * b; a / b; a == b; a != b; a =? b; a !? b; a <= b; a >= b; a < b; a > b;",
    )
    .unwrap();
    let shapes: Vec<&str> = program
        .statements
        .iter()
        .map(|statement| match statement {
            Statement::Node(Node::Add { .. }) => "+",
            Statement::Node(Node::Subtract { .. }) => "-",
            Statement::Node(Node::Multiply { .. }) => "*",
            Statement::Node(Node::Divide { .. }) => "/",
            Statement::Node(Node::Equal { .. }) => "==",
            Statement::Node(Node::NotEqual { .. }) => "!=",
            Statement::Node(Node::BoolEqual { .. }) => "=?",
            Statement::Node(Node::BoolNotEqual { .. }) => "!?",
            Statement::Node(Node::LessThanOrEqual { .. }) => "<=",
            Statement::Node(Node::GreaterThanOrEqual { .. }) => ">=",
            Statement::Node(Node::LessThan { .. }) => "<",
            Statement::Node(Node::GreaterThan { .. }) => ">",
            _ => "?",
        })
        .collect();
    assert_eq!(shapes, vec!["+", "-", "*", "/", "==", "!=", "=?", "!?", "<=", ">=", "<", ">"]);
}

#[test]
fn a_declaration_holds_name_type_and_value() {
    let program = parse("let s: str = \"a b\";").unwrap();
    match &program.statements[0] {
        Statement::Node(Node::Let { name: found, var_type, value }) => {
            assert_eq!(*found, name("s"));
            assert_eq!(*var_type, AbstractType::String);
            match &**value {
                Node::StringLiteral(text) => assert_eq!(*text, name("a b")),
                other => panic!("{:?}", other),
            }
        }
        other => panic!("{:?}", other),
    }
}

#[test]
fn string_literals_are_taken_as_they_are() {
    let program = parse("print_str(\"a\\n\");").unwrap();
    match &program.statements[0] {
        Statement::Node(Node::Function { args, .. }) => match &args[0] {
            Node::StringLiteral(text) => assert_eq!(*text, name("a\\n")),
            other => panic!("{:?}", other),
        },
        other => panic!("{:?}", other),
    }
}

#[test]
fn integer_literals() {
    let program = parse("0; -5; 2147483647; -2147483648; 007; 3 -2; 3 - -2;").unwrap();
    assert!(matches!(program.statements[0], Statement::Node(Node::Int(0))));
    assert!(matches!(program.statements[1], Statement::Node(Node::Int(-5))));
    assert!(matches!(program.statements[2], Statement::Node(Node::Int(2147483647))));
    assert!(matches!(program.statements[3], Statement::Node(Node::Int(-2147483648))));
    assert!(matches!(program.statements[4], Statement::Node(Node::Int(7))));
    match &program.statements[5] {
        Statement::Node(Node::Subtract { rhs, .. }) => assert!(matches!(**rhs, Node::Int(2))),
        other => panic!("{:?}", other),
    }
    match &program.statements[6] {
        Statement::Node(Node::Subtract { rhs, .. }) => assert!(matches!(**rhs, Node::Int(-2))),
        other => panic!("{:?}", other),
    }
}

#[test]
fn integer_literals_out_of_range_are_refused() {
    assert_eq!(error("2147483648;"), ParseError { position: 0, rule: Rule::Number });
    assert_eq!(error("1 + -2147483649;"), ParseError { position: 4, rule: Rule::Number });
    assert_eq!(
        error("99999999999999999999999999999999;"),
        ParseError { position: 0, rule: Rule::Number }
    );
}

#[test]
fn functions_and_statements() {
    let program = parse(
        "fn f(a: i32, b: bool) -> void { return a; }\nloop { }\nwhile (true) { f(1, true); }\nif (false) { } else { panic(); }",
    )
    .unwrap();
    assert_eq!(program.functions.len(), 1);
    let (found, info) = &program.functions[0];
    assert_eq!(*found, name("f"));
    assert_eq!(info.return_type, AbstractType::Void);
    assert_eq!(info.args.len(), 2);
    assert_eq!(info.args[0].name, name("a"));
    assert_eq!(info.args[0].data_type, AbstractType::Integer);
    assert_eq!(info.args[1].name, name("b"));
    assert_eq!(info.args[1].data_type, AbstractType::Boolean);
    assert!(matches!(info.body[0], Statement::Return(Node::Get { .. })));
    assert_eq!(program.statements.len(), 3);
    match &program.statements[0] {
        Statement::InfiniteLoop(body) => assert!(body.is_empty()),
        other => panic!("{:?}", other),
    }
    match &program.statements[1] {
        Statement::While { condition, loop_statements } => {
            assert!(matches!(condition, Node::Bool(true)));
            match &loop_statements[0] {
                Statement::Node(Node::Function { name: called, args }) => {
                    assert_eq!(*called, name("f"));
                    assert_eq!(args.len(), 2);
                }
                other => panic!("{:?}", other),
            }
        }
        other => panic!("{:?}", other),
    }
    match &program.statements[2] {
        Statement::If { condition, branch, else_branch } => {
            assert!(matches!(condition, Node::Bool(false)));
            assert!(branch.is_empty());
            assert_eq!(else_branch.len(), 1);
        }
        other => panic!("{:?}", other),
    }
}

#[test]
fn an_if_without_else_has_an_empty_else_branch() {
    let program = parse("if (true) { panic(); } panic();").unwrap();
    assert_eq!(program.statements.len(), 2);
    match &program.statements[0] {
        Statement::If { branch, else_branch, .. } => {
            assert_eq!(branch.len(), 1);
            assert!(else_branch.is_empty());
        }
        other => panic!("{:?}", other),
    }
}

#[test]
fn words_that_start_like_keywords_are_names() {
    let program = parse("truth; iffy(1); lets;").unwrap();
    assert!(matches!(program.statements[0], Statement::Node(Node::Get { .. })));
    assert!(matches!(program.statements[1], Statement::Node(Node::Function { .. })));
    assert!(matches!(program.statements[2], Statement::Node(Node::Get { .. })));
}

#[test]
fn the_empty_text_is_the_empty_program() {
    let program = parse("").unwrap();
    assert!(program.statements.is_empty());
    assert!(program.functions.is_empty());
    let program = parse_bytes(&b" \t\r\n".to_vec()).unwrap();
    assert!(program.statements.is_empty());
}

#[test]
fn errors_name_the_rule_and_the_position() {
    assert_eq!(error("print_int(1)"), ParseError { position: 12, rule: Rule::Semicolon });
    assert_eq!(error("let x: int = 1;"), ParseError { position: 7, rule: Rule::Type });
    assert_eq!(error("1 +;"), ParseError { position: 3, rule: Rule::Operand });
    assert_eq!(error("}"), ParseError { position: 0, rule: Rule::Operand });
    assert_eq!(error("print_str(\"abc);"), ParseError { position: 10, rule: Rule::StringLiteral });
    assert_eq!(error("if (true) panic();"), ParseError { position: 10, rule: Rule::OpenBrace });
    assert_eq!(error("loop { panic();"), ParseError { position: 15, rule: Rule::CloseBrace });
    assert_eq!(error("while true { }"), ParseError { position: 6, rule: Rule::OpenParen });
    assert_eq!(error("f(1;"), ParseError { position: 3, rule: Rule::CloseParen });
    assert_eq!(error("(1 + 2;"), ParseError { position: 6, rule: Rule::CloseParen });
    assert_eq!(error("let 5: i32 = 1;"), ParseError { position: 4, rule: Rule::Identifier });
    assert_eq!(error("let x i32 = 1;"), ParseError { position: 6, rule: Rule::Colon });
    assert_eq!(error("let x: i32 1;"), ParseError { position: 11, rule: Rule::Equals });
    assert_eq!(error("fn f() { }"), ParseError { position: 7, rule: Rule::Arrow });
    assert_eq!(error("fn f(a: i32 -> void { }"), ParseError { position: 12, rule: Rule::CloseParen });
    assert_eq!(error("fn (a: i32) -> void { }"), ParseError { position: 3, rule: Rule::Identifier });
    assert_eq!(error("fn f() -> none { }"), ParseError { position: 10, rule: Rule::Type });
}
