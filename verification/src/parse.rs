//! The parser: from the bytes of a source text to the syntax tree that the
//! grammar gives them.

use crate::grammar::{
    BANG, CLOSE_BRACE, CLOSE_PAREN, COLON, COMMA, EQUALS, GREATER, LESS, MINUS, OPEN_BRACE,
    OPEN_PAREN, PLUS, QUESTION, QUOTE, SEMICOLON, SLASH, STAR,
    Class, ParseError, Rule, arguments, arrow, at, block, condition, declaration, declare,
    declared_at, digits_value,
    expect, expr, expr_tail, expr_then, function, identifier, in_class, is_digit, is_word_start,
    items, keyword_at, lemma_declare_keeps_names_unique, line, lines, number, number_at, operand,
    operator_at, parameter_list, unique_names,
    parameters, program, run, spaced, spells, string_literal, type_at, word, word_at,
};
use crate::node::{
    AbstractType, BinaryOp, Definition, DefinitionModel, FileDescription, FunctionInfo,
    FunctionModel, Node, NodeModel, ProgramModel, Statement, StatementModel, binary,
    definitions_view, functions_view, lemma_call_model, lemma_if_model, lemma_loop_model,
    lemma_while_model, nodes_view, statements_view,
};
use crate::text::bytes_eq;
use vstd::prelude::*;
use vstd::string::StrSliceExecFns;
use vstd::string::StringSliceAdditionalSpecFns;

verus! {

/// Whether a parser, started at `pos`, returned what the grammar expects: a
/// value that `same` as the expected model and the position after the bytes
/// taken, or the same error.
pub open spec fn parsed<T, M>(
    r: Result<(T, usize), ParseError>,
    s: Seq<u8>,
    pos: int,
    expected: Result<(M, nat), ParseError>,
    same: spec_fn(T, M) -> bool,
) -> bool {
    match expected {
        Ok((model, taken)) => match r {
            Ok((value, next)) => same(value, model) && next == pos + taken && next <= s.len(),
            Err(_) => false,
        },
        Err(e) => match r {
            Ok(_) => false,
            Err(x) => x == e,
        },
    }
}

pub open spec fn same_node(node: Node, model: NodeModel) -> bool {
    node@ == model
}

pub open spec fn same_nodes(nodes: Vec<Node>, models: Seq<NodeModel>) -> bool {
    nodes_view(nodes@) == models
}

pub open spec fn same_statement(statement: Statement, model: StatementModel) -> bool {
    statement@ == model
}

pub open spec fn same_statements(statements: Vec<Statement>, models: Seq<StatementModel>) -> bool {
    statements_view(statements@) == models
}

pub open spec fn same_definitions(definitions: Vec<Definition>, models: Seq<DefinitionModel>) -> bool {
    definitions_view(definitions@) == models
}

pub open spec fn same_bytes(bytes: Vec<u8>, model: Seq<u8>) -> bool {
    bytes@ == model
}

pub open spec fn same_type(value: AbstractType, model: AbstractType) -> bool {
    value == model
}

pub open spec fn same_function(declared: (Vec<u8>, FunctionInfo), model: (Seq<u8>, FunctionModel)) -> bool {
    declared.0@ == model.0 && declared.1@ == model.1
}

fn class_has(class: Class, b: u8) -> (r: bool)
    ensures
        r == in_class(class, b),
{
    match class {
        Class::Space => b == 32 || b == 9 || b == 10 || b == 13,
        Class::Word => (65 <= b && b <= 90) || (97 <= b && b <= 122) || b == 95 || (48 <= b && b
            <= 57),
        Class::Digit => 48 <= b && b <= 57,
        Class::Quoted => b != QUOTE,
    }
}

/// The end of the run of bytes of `class` that starts at `pos`.
fn run_end(s: &Vec<u8>, pos: usize, class: Class) -> (r: usize)
    requires
        pos <= s.len(),
    ensures
        r == pos + run(s@, pos as int, class),
        r <= s.len(),
{
    let mut i: usize = pos;
    while i < s.len() && class_has(class, s[i])
        invariant
            pos <= i <= s.len(),
            pos + run(s@, pos as int, class) == i + run(s@, i as int, class),
        decreases s.len() - i,
    {
        i = i + 1;
    }
    i
}

/// The position after a token of `n` bytes at `pos` and the white space
/// after it.
fn skip(s: &Vec<u8>, pos: usize, n: usize) -> (r: usize)
    requires
        pos + n <= s.len(),
    ensures
        r == pos + spaced(s@, pos as int, n as nat),
        r <= s.len(),
{
    run_end(s, pos + n, Class::Space)
}

fn is_at(s: &Vec<u8>, pos: usize, b: u8) -> (r: bool)
    ensures
        r == at(s@, pos as int, b),
{
    pos < s.len() && s[pos] == b
}

fn is_word_at(s: &Vec<u8>, pos: usize) -> (r: bool)
    ensures
        r == word_at(s@, pos as int),
{
    pos < s.len() && ((65 <= s[pos] && s[pos] <= 90) || (97 <= s[pos] && s[pos] <= 122) || s[pos]
        == 95)
}

fn is_number_at(s: &Vec<u8>, pos: usize) -> (r: bool)
    ensures
        r == number_at(s@, pos as int),
{
    pos < s.len() && ((48 <= s[pos] && s[pos] <= 57) || (s[pos] == MINUS && pos + 1 < s.len() && 48
        <= s[pos + 1] && s[pos + 1] <= 57))
}

/// A copy of the bytes from `from` up to `to`.
fn slice(s: &Vec<u8>, from: usize, to: usize) -> (r: Vec<u8>)
    requires
        from <= to <= s.len(),
    ensures
        r@ == s@.subrange(from as int, to as int),
{
    let mut r: Vec<u8> = Vec::new();
    let mut i: usize = from;
    while i < to
        invariant
            from <= i <= to <= s.len(),
            r@ == s@.subrange(from as int, i as int),
        decreases to - i,
    {
        r.push(s[i]);
        i = i + 1;
        assert(r@ =~= s@.subrange(from as int, i as int));
    }
    r
}

#[verifier::loop_isolation(false)]
fn is_keyword_at(s: &Vec<u8>, pos: usize, text: &str) -> (r: bool)
    ensures
        r == keyword_at(s@, pos as int, text),
{
    if !is_word_at(s, pos) {
        return false;
    }
    let end = run_end(s, pos, Class::Word);
    let t = text.as_bytes();
    let ghost found = word(s@, pos as int);
    assert(found.len() == end - pos);
    if end - pos != t.len() {
        assert(!spells(found, text)) by {
            reveal(spells);
        }
        return false;
    }
    let mut i: usize = 0;
    while i < t.len()
        invariant
            i <= t.len(),
            pos + t.len() == end <= s.len(),
            t@ == text.spec_bytes(),
            found == s@.subrange(pos as int, end as int),
            forall|k: int| 0 <= k < i ==> s@[pos + k] == t@[k],
        decreases t.len() - i,
    {
        if s[pos + i] != t[i] {
            assert(!spells(found, text)) by {
                reveal(spells);
                assert(found[i as int] == s@[pos + i]);
            }
            return false;
        }
        i = i + 1;
    }
    assert(spells(found, text)) by {
        reveal(spells);
        assert(found =~= t@);
    }
    true
}

fn parse_number(s: &Vec<u8>, pos: usize) -> (r: Result<(Node, usize), ParseError>)
    requires
        number_at(s@, pos as int),
    ensures
        parsed(r, s@, pos as int, number(s@, pos as int), |n: Node, m: NodeModel| same_node(n, m)),
{
    let negative = s[pos] == MINUS;
    let start: usize = if negative {
        pos + 1
    } else {
        pos
    };
    let mut i: usize = start;
    let mut value: u64 = 0;
    let mut big = false;
    while i < s.len() && 48 <= s[i] && s[i] <= 57
        invariant
            start <= i <= s.len(),
            start + run(s@, start as int, Class::Digit) == i + run(s@, i as int, Class::Digit),
            !big ==> value == digits_value(s@, start as int, i as int) && value <= 0x8000_0000,
            big ==> digits_value(s@, start as int, i as int) > 0x8000_0000,
        decreases s.len() - i,
    {
        let digit: u64 = (s[i] - 48) as u64;
        if !big {
            value = value * 10 + digit;
            if value > 0x8000_0000 {
                big = true;
            }
        }
        i = i + 1;
    }
    let next = run_end(s, i, Class::Space);
    if big {
        return Err(ParseError { position: pos, rule: Rule::Number });
    }
    if negative {
        let v: i64 = 0 - (value as i64);
        Ok((Node::Int(v as i32), next))
    } else if value <= 0x7fff_ffff {
        Ok((Node::Int(value as i32), next))
    } else {
        Err(ParseError { position: pos, rule: Rule::Number })
    }
}

fn parse_string(s: &Vec<u8>, pos: usize) -> (r: Result<(Node, usize), ParseError>)
    requires
        pos < s.len(),
        at(s@, pos as int, QUOTE),
    ensures
        parsed(
            r,
            s@,
            pos as int,
            string_literal(s@, pos as int),
            |n: Node, m: NodeModel| same_node(n, m),
        ),
{
    let end = run_end(s, pos + 1, Class::Quoted);
    if is_at(s, end, QUOTE) {
        let next = skip(s, end, 1);
        Ok((Node::StringLiteral(slice(s, pos + 1, end)), next))
    } else {
        Err(ParseError { position: pos, rule: Rule::StringLiteral })
    }
}

fn parse_identifier(s: &Vec<u8>, pos: usize) -> (r: Result<(Vec<u8>, usize), ParseError>)
    requires
        pos <= s.len(),
    ensures
        parsed(
            r,
            s@,
            pos as int,
            identifier(s@, pos as int),
            |n: Vec<u8>, m: Seq<u8>| same_bytes(n, m),
        ),
        r is Ok ==> r.unwrap().1 > pos,
{
    if is_word_at(s, pos) {
        let end = run_end(s, pos, Class::Word);
        let next = run_end(s, end, Class::Space);
        Ok((slice(s, pos, end), next))
    } else {
        Err(ParseError { position: pos, rule: Rule::Identifier })
    }
}

fn parse_type(s: &Vec<u8>, pos: usize) -> (r: Result<(AbstractType, usize), ParseError>)
    requires
        pos <= s.len(),
    ensures
        parsed(
            r,
            s@,
            pos as int,
            type_at(s@, pos as int),
            |n: AbstractType, m: AbstractType| same_type(n, m),
        ),
{
    let end = run_end(s, pos, Class::Word);
    let next = run_end(s, end, Class::Space);
    if is_keyword_at(s, pos, "i32") {
        Ok((AbstractType::Integer, next))
    } else if is_keyword_at(s, pos, "bool") {
        Ok((AbstractType::Boolean, next))
    } else if is_keyword_at(s, pos, "str") {
        Ok((AbstractType::String, next))
    } else if is_keyword_at(s, pos, "void") {
        Ok((AbstractType::Void, next))
    } else {
        Err(ParseError { position: pos, rule: Rule::Type })
    }
}

fn expect_byte(s: &Vec<u8>, pos: usize, b: u8, rule: Rule) -> (r: Result<usize, ParseError>)
    requires
        pos <= s.len(),
    ensures
        match expect(s@, pos as int, b, rule) {
            Ok(taken) => r == Ok::<usize, ParseError>((pos + taken) as usize) && pos + taken
                <= s.len(),
            Err(e) => r == Err::<usize, ParseError>(e),
        },
{
    if is_at(s, pos, b) {
        Ok(skip(s, pos, 1))
    } else {
        Err(ParseError { position: pos, rule })
    }
}

fn parse_operator(s: &Vec<u8>, pos: usize) -> (r: Option<(BinaryOp, usize)>)
    requires
        pos <= s.len(),
    ensures
        match operator_at(s@, pos as int) {
            Some((op, length)) => r == Some((op, length as usize)) && 1 <= length <= 2 && pos
                + length <= s.len(),
            None => r is None,
        },
{
    if pos >= s.len() {
        return None;
    }
    let second = pos + 1;
    if is_at(s, pos, EQUALS) && is_at(s, second, EQUALS) {
        Some((BinaryOp::Equal, 2))
    } else if is_at(s, pos, BANG) && is_at(s, second, EQUALS) {
        Some((BinaryOp::NotEqual, 2))
    } else if is_at(s, pos, EQUALS) && is_at(s, second, QUESTION) {
        Some((BinaryOp::BoolEqual, 2))
    } else if is_at(s, pos, BANG) && is_at(s, second, QUESTION) {
        Some((BinaryOp::BoolNotEqual, 2))
    } else if is_at(s, pos, LESS) && is_at(s, second, EQUALS) {
        Some((BinaryOp::LessThanOrEqual, 2))
    } else if is_at(s, pos, GREATER) && is_at(s, second, EQUALS) {
        Some((BinaryOp::GreaterThanOrEqual, 2))
    } else if is_at(s, pos, LESS) {
        Some((BinaryOp::LessThan, 1))
    } else if is_at(s, pos, GREATER) {
        Some((BinaryOp::GreaterThan, 1))
    } else if is_at(s, pos, PLUS) {
        Some((BinaryOp::Add, 1))
    } else if is_at(s, pos, MINUS) {
        Some((BinaryOp::Subtract, 1))
    } else if is_at(s, pos, STAR) {
        Some((BinaryOp::Multiply, 1))
    } else if is_at(s, pos, SLASH) {
        Some((BinaryOp::Divide, 1))
    } else {
        None
    }
}

/// The expression that applies `op` to two expressions.
pub fn make_binary(op: BinaryOp, lhs: Node, rhs: Node) -> (r: Node)
    ensures
        r@ == binary(op, lhs@, rhs@),
{
    let lhs = Box::new(lhs);
    let rhs = Box::new(rhs);
    match op {
        BinaryOp::Add => Node::Add { lhs, rhs },
        BinaryOp::Subtract => Node::Subtract { lhs, rhs },
        BinaryOp::Multiply => Node::Multiply { lhs, rhs },
        BinaryOp::Divide => Node::Divide { lhs, rhs },
        BinaryOp::Equal => Node::Equal { lhs, rhs },
        BinaryOp::NotEqual => Node::NotEqual { lhs, rhs },
        BinaryOp::LessThanOrEqual => Node::LessThanOrEqual { lhs, rhs },
        BinaryOp::GreaterThanOrEqual => Node::GreaterThanOrEqual { lhs, rhs },
        BinaryOp::LessThan => Node::LessThan { lhs, rhs },
        BinaryOp::GreaterThan => Node::GreaterThan { lhs, rhs },
        BinaryOp::BoolEqual => Node::BoolEqual { lhs, rhs },
        BinaryOp::BoolNotEqual => Node::BoolNotEqual { lhs, rhs },
    }
}

fn parse_operand(s: &Vec<u8>, pos: usize) -> (r: Result<(Node, usize), ParseError>)
    requires
        pos <= s.len(),
    ensures
        parsed(r, s@, pos as int, operand(s@, pos as int), |n: Node, m: NodeModel| same_node(n, m)),
    decreases s.len() - pos, 0nat,
{
    reveal(operand);
    reveal(expr_tail);
    reveal(expr);
    reveal(arguments);
    if is_number_at(s, pos) {
        return parse_number(s, pos);
    }
    if is_at(s, pos, QUOTE) {
        return parse_string(s, pos);
    }
    if is_at(s, pos, OPEN_PAREN) {
        let open = skip(s, pos, 1);
        let (node, end) = parse_expr(s, open)?;
        let next = expect_byte(s, end, CLOSE_PAREN, Rule::CloseParen)?;
        return Ok((node, next));
    }
    if is_word_at(s, pos) {
        let end = run_end(s, pos, Class::Word);
        let after = run_end(s, end, Class::Space);
        if is_keyword_at(s, pos, "true") {
            return Ok((Node::Bool(true), after));
        }
        if is_keyword_at(s, pos, "false") {
            return Ok((Node::Bool(false), after));
        }
        if is_at(s, after, OPEN_PAREN) {
            let open = skip(s, after, 1);
            let name = slice(s, pos, end);
            if is_at(s, open, CLOSE_PAREN) {
                let next = skip(s, open, 1);
                let args: Vec<Node> = Vec::new();
                proof {
                    lemma_call_model(name, args);
                    assert(nodes_view(args@) =~= Seq::empty());
                }
                return Ok((Node::Function { name, args }, next));
            }
            let (args, next) = parse_arguments(s, open)?;
            proof {
                lemma_call_model(name, args);
            }
            return Ok((Node::Function { name, args }, next));
        }
        return Ok((Node::Get { name: slice(s, pos, end) }, after));
    }
    Err(ParseError { position: pos, rule: Rule::Operand })
}

#[verifier::loop_isolation(false)]
fn parse_expr(s: &Vec<u8>, pos: usize) -> (r: Result<(Node, usize), ParseError>)
    requires
        pos <= s.len(),
    ensures
        parsed(r, s@, pos as int, expr(s@, pos as int), |n: Node, m: NodeModel| same_node(n, m)),
    decreases s.len() - pos, 2nat,
{
    reveal(operand);
    reveal(expr_tail);
    reveal(expr);
    reveal(arguments);
    let (first, start) = parse_operand(s, pos)?;
    let mut lhs = first;
    let mut here: usize = start;
    loop
        invariant
            pos <= here <= s.len(),
            expr(s@, pos as int) == expr_tail(s@, here as int, lhs@, (here - pos) as nat),
        decreases s.len() - here,
    {
        match parse_operator(s, here) {
            None => {
                return Ok((lhs, here));
            },
            Some((op, length)) => {
                let after = skip(s, here, length);
                let (rhs, next) = parse_operand(s, after)?;
                lhs = make_binary(op, lhs, rhs);
                here = next;
            },
        }
    }
}

#[verifier::loop_isolation(false)]
fn parse_arguments(s: &Vec<u8>, pos: usize) -> (r: Result<(Vec<Node>, usize), ParseError>)
    requires
        pos <= s.len(),
    ensures
        parsed(
            r,
            s@,
            pos as int,
            arguments(s@, pos as int, Seq::empty(), 0),
            |n: Vec<Node>, m: Seq<NodeModel>| same_nodes(n, m),
        ),
    decreases s.len() - pos, 3nat,
{
    reveal(operand);
    reveal(expr_tail);
    reveal(expr);
    reveal(arguments);
    let mut args: Vec<Node> = Vec::new();
    let mut here: usize = pos;
    assert(nodes_view(args@) =~= Seq::empty());
    loop
        invariant
            pos <= here <= s.len(),
            arguments(s@, pos as int, Seq::empty(), 0) == arguments(
                s@,
                here as int,
                nodes_view(args@),
                (here - pos) as nat,
            ),
        decreases s.len() - here,
    {
        let (node, end) = parse_expr(s, here)?;
        let ghost before = nodes_view(args@);
        let ghost model = node@;
        args.push(node);
        assert(nodes_view(args@) =~= before.push(model));
        if is_at(s, end, COMMA) {
            here = skip(s, end, 1);
        } else {
            let next = expect_byte(s, end, CLOSE_PAREN, Rule::CloseParen)?;
            return Ok((args, next));
        }
    }
}

fn parse_expr_then(s: &Vec<u8>, pos: usize, b: u8, rule: Rule) -> (r: Result<
    (Node, usize),
    ParseError,
>)
    requires
        pos <= s.len(),
    ensures
        parsed(
            r,
            s@,
            pos as int,
            expr_then(s@, pos as int, b, rule),
            |n: Node, m: NodeModel| same_node(n, m),
        ),
        r is Ok ==> r.unwrap().1 > pos,
    decreases s.len() - pos, 3nat,
{
    reveal(expr_then);
    let (node, end) = parse_expr(s, pos)?;
    let next = expect_byte(s, end, b, rule)?;
    Ok((node, next))
}

fn parse_condition(s: &Vec<u8>, pos: usize) -> (r: Result<(Node, usize), ParseError>)
    requires
        pos <= s.len(),
    ensures
        parsed(
            r,
            s@,
            pos as int,
            condition(s@, pos as int),
            |n: Node, m: NodeModel| same_node(n, m),
        ),
    decreases s.len() - pos, 4nat,
{
    reveal(condition);
    let open = expect_byte(s, pos, OPEN_PAREN, Rule::OpenParen)?;
    parse_expr_then(s, open, CLOSE_PAREN, Rule::CloseParen)
}

fn parse_declaration(s: &Vec<u8>, pos: usize) -> (r: Result<(Node, usize), ParseError>)
    requires
        pos <= s.len(),
    ensures
        parsed(
            r,
            s@,
            pos as int,
            declaration(s@, pos as int),
            |n: Node, m: NodeModel| same_node(n, m),
        ),
    decreases s.len() - pos, 4nat,
{
    reveal(declaration);
    let (name, named) = parse_identifier(s, pos)?;
    let colon = expect_byte(s, named, COLON, Rule::Colon)?;
    let (var_type, typed) = parse_type(s, colon)?;
    let equals = expect_byte(s, typed, EQUALS, Rule::Equals)?;
    let (value, next) = parse_expr_then(s, equals, SEMICOLON, Rule::Semicolon)?;
    Ok((Node::Let { name, var_type, value: Box::new(value) }, next))
}

fn parse_line(s: &Vec<u8>, pos: usize) -> (r: Result<(Statement, usize), ParseError>)
    requires
        pos <= s.len(),
    ensures
        parsed(
            r,
            s@,
            pos as int,
            line(s@, pos as int),
            |n: Statement, m: StatementModel| same_statement(n, m),
        ),
        r is Ok ==> r.unwrap().1 > pos,
    decreases s.len() - pos, 5nat,
{
    reveal(line);
    reveal(lines);
    reveal(block);
    let end = run_end(s, pos, Class::Word);
    let key = run_end(s, end, Class::Space);
    if is_keyword_at(s, pos, "let") {
        let (node, next) = parse_declaration(s, key)?;
        Ok((Statement::Node(node), next))
    } else if is_keyword_at(s, pos, "return") {
        let (node, next) = parse_expr_then(s, key, SEMICOLON, Rule::Semicolon)?;
        Ok((Statement::Return(node), next))
    } else if is_keyword_at(s, pos, "if") {
        let (condition, tested) = parse_condition(s, key)?;
        let (branch, head) = parse_block(s, tested)?;
        if is_keyword_at(s, head, "else") {
            let word_end = run_end(s, head, Class::Word);
            let other = run_end(s, word_end, Class::Space);
            let (else_branch, next) = parse_block(s, other)?;
            proof {
                lemma_if_model(condition, branch, else_branch);
            }
            Ok((Statement::If { condition, branch, else_branch }, next))
        } else {
            let else_branch: Vec<Statement> = Vec::new();
            proof {
                lemma_if_model(condition, branch, else_branch);
                assert(statements_view(else_branch@) =~= Seq::empty());
            }
            Ok((Statement::If { condition, branch, else_branch }, head))
        }
    } else if is_keyword_at(s, pos, "while") {
        let (condition, tested) = parse_condition(s, key)?;
        let (loop_statements, next) = parse_block(s, tested)?;
        proof {
            lemma_while_model(condition, loop_statements);
        }
        Ok((Statement::While { condition, loop_statements }, next))
    } else if is_keyword_at(s, pos, "loop") {
        let (body, next) = parse_block(s, key)?;
        proof {
            lemma_loop_model(body);
        }
        Ok((Statement::InfiniteLoop(body), next))
    } else {
        let (node, next) = parse_expr_then(s, pos, SEMICOLON, Rule::Semicolon)?;
        Ok((Statement::Node(node), next))
    }
}

#[verifier::loop_isolation(false)]
fn parse_block(s: &Vec<u8>, pos: usize) -> (r: Result<(Vec<Statement>, usize), ParseError>)
    requires
        pos <= s.len(),
    ensures
        parsed(
            r,
            s@,
            pos as int,
            block(s@, pos as int),
            |n: Vec<Statement>, m: Seq<StatementModel>| same_statements(n, m),
        ),
    decreases s.len() - pos, 7nat,
{
    reveal(line);
    reveal(lines);
    reveal(block);
    if !is_at(s, pos, OPEN_BRACE) {
        return Err(ParseError { position: pos, rule: Rule::OpenBrace });
    }
    let open = skip(s, pos, 1);
    let mut statements: Vec<Statement> = Vec::new();
    let mut here: usize = open;
    assert(statements_view(statements@) =~= Seq::empty());
    while here < s.len() && s[here] != CLOSE_BRACE
        invariant
            open <= here <= s.len(),
            lines(s@, open as int, Seq::empty(), 0) == lines(
                s@,
                here as int,
                statements_view(statements@),
                (here - open) as nat,
            ),
        decreases s.len() - here,
    {
        let (statement, next) = parse_line(s, here)?;
        let ghost before = statements_view(statements@);
        let ghost model = statement@;
        statements.push(statement);
        assert(statements_view(statements@) =~= before.push(model));
        here = next;
    }
    let next = expect_byte(s, here, CLOSE_BRACE, Rule::CloseBrace)?;
    Ok((statements, next))
}

#[verifier::loop_isolation(false)]
fn parse_parameter_list(s: &Vec<u8>, pos: usize) -> (r: Result<
    (Vec<Definition>, usize),
    ParseError,
>)
    requires
        pos <= s.len(),
    ensures
        parsed(
            r,
            s@,
            pos as int,
            parameter_list(s@, pos as int),
            |n: Vec<Definition>, m: Seq<DefinitionModel>| same_definitions(n, m),
        ),
{
    reveal(parameter_list);
    reveal(parameters);
    let open = expect_byte(s, pos, OPEN_PAREN, Rule::OpenParen)?;
    let mut all: Vec<Definition> = Vec::new();
    assert(definitions_view(all@) =~= Seq::empty());
    if is_at(s, open, CLOSE_PAREN) {
        return Ok((all, skip(s, open, 1)));
    }
    let mut here: usize = open;
    loop
        invariant
            open <= here <= s.len(),
            parameters(s@, open as int, Seq::empty(), 0) == parameters(
                s@,
                here as int,
                definitions_view(all@),
                (here - open) as nat,
            ),
        decreases s.len() - here,
    {
        let (name, named) = parse_identifier(s, here)?;
        let colon = expect_byte(s, named, COLON, Rule::Colon)?;
        let (data_type, typed) = parse_type(s, colon)?;
        let ghost before = definitions_view(all@);
        let definition = Definition { name, data_type };
        let ghost model = definition@;
        all.push(definition);
        assert(definitions_view(all@) =~= before.push(model));
        if is_at(s, typed, COMMA) {
            here = skip(s, typed, 1);
        } else {
            let next = expect_byte(s, typed, CLOSE_PAREN, Rule::CloseParen)?;
            return Ok((all, next));
        }
    }
}

fn parse_arrow(s: &Vec<u8>, pos: usize) -> (r: Result<usize, ParseError>)
    requires
        pos <= s.len(),
    ensures
        match arrow(s@, pos as int) {
            Ok(taken) => r == Ok::<usize, ParseError>((pos + taken) as usize) && pos + taken
                <= s.len(),
            Err(e) => r == Err::<usize, ParseError>(e),
        },
{
    if pos < s.len() && is_at(s, pos, MINUS) && is_at(s, pos + 1, GREATER) {
        Ok(skip(s, pos, 2))
    } else {
        Err(ParseError { position: pos, rule: Rule::Arrow })
    }
}

fn parse_function(s: &Vec<u8>, pos: usize) -> (r: Result<
    ((Vec<u8>, FunctionInfo), usize),
    ParseError,
>)
    requires
        pos <= s.len(),
    ensures
        parsed(
            r,
            s@,
            pos as int,
            function(s@, pos as int),
            |n: (Vec<u8>, FunctionInfo), m: (Seq<u8>, FunctionModel)| same_function(n, m),
        ),
        r is Ok ==> r.unwrap().1 > pos,
{
    reveal(function);
    let word_end = run_end(s, pos, Class::Word);
    let key = run_end(s, word_end, Class::Space);
    let (name, named) = parse_identifier(s, key)?;
    let (args, listed) = parse_parameter_list(s, named)?;
    let pointed = parse_arrow(s, listed)?;
    let (return_type, typed) = parse_type(s, pointed)?;
    let (body, next) = parse_block(s, typed)?;
    Ok(((name, FunctionInfo { body, args, return_type }), next))
}

/// Puts a function into the list: in the place of an earlier one of the same
/// name, else at the end.
fn declare_function(functions: &mut Vec<(Vec<u8>, FunctionInfo)>, declared: (Vec<u8>, FunctionInfo))
    ensures
        functions_view(final(functions)@) == declare(
            functions_view(old(functions)@),
            (declared.0@, declared.1@),
        ),
{
    let mut i: usize = 0;
    while i < functions.len()
        invariant
            i <= functions.len(),
            functions@ == old(functions)@,
            declared_at(functions_view(functions@), declared.0@, 0) == declared_at(
                functions_view(functions@),
                declared.0@,
                i as int,
            ),
        decreases functions.len() - i,
    {
        if bytes_eq(&functions[i].0, &declared.0) {
            let ghost before = functions_view(functions@);
            let ghost model = (declared.0@, declared.1@);
            functions.set(i, declared);
            assert(functions_view(functions@) =~= before.update(i as int, model));
            return ;
        }
        i = i + 1;
    }
    let ghost before = functions_view(functions@);
    let ghost model = (declared.0@, declared.1@);
    functions.push(declared);
    assert(functions_view(functions@) =~= before.push(model));
}

/// Parses the bytes of a source text. No two functions of the program have
/// one name: of two declarations of a name the later stands.
#[verifier::loop_isolation(false)]
pub fn parse_bytes(s: &Vec<u8>) -> (r: Result<FileDescription, ParseError>)
    ensures
        match program(s@) {
            Ok(model) => r matches Ok(file) && file@ == model && unique_names(model.functions),
            Err(e) => r matches Err(x) && x == e,
        },
{
    reveal(items);
    let mut statements: Vec<Statement> = Vec::new();
    let mut functions: Vec<(Vec<u8>, FunctionInfo)> = Vec::new();
    let mut here: usize = run_end(s, 0, Class::Space);
    assert(statements_view(statements@) =~= Seq::empty());
    assert(functions_view(functions@) =~= Seq::empty());
    while here < s.len()
        invariant
            here <= s.len(),
            unique_names(functions_view(functions@)),
            program(s@) == items(
                s@,
                here as int,
                ProgramModel {
                    statements: statements_view(statements@),
                    functions: functions_view(functions@),
                },
            ),
        decreases s.len() - here,
    {
        if is_keyword_at(s, here, "fn") {
            let (declared, next) = parse_function(s, here)?;
            proof {
                lemma_declare_keeps_names_unique(
                    functions_view(functions@),
                    (declared.0@, declared.1@),
                );
            }
            declare_function(&mut functions, declared);
            here = next;
        } else {
            let (statement, next) = parse_line(s, here)?;
            let ghost before = statements_view(statements@);
            let ghost model = statement@;
            statements.push(statement);
            assert(statements_view(statements@) =~= before.push(model));
            here = next;
        }
    }
    Ok(FileDescription { statements, functions })
}

/// Parses a source text. No two functions of the program have one name: of
/// two declarations of a name the later stands.
pub fn parse(code: &str) -> (r: Result<FileDescription, ParseError>)
    ensures
        match program(code.spec_bytes()) {
            Ok(model) => r matches Ok(file) && file@ == model && unique_names(model.functions),
            Err(e) => r matches Err(x) && x == e,
        },
{
    let bytes = code.as_bytes_vec();
    parse_bytes(&bytes)
}

} // verus!
