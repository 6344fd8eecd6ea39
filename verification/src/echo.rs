//! The program that binds an integer literal to a variable and prints the
//! variable: what its source text is, what the grammar makes of it, and what
//! it writes.

use crate::grammar::{
    CLOSE_PAREN, COLON, Class, EQUALS, OPEN_PAREN, ParseError, SEMICOLON, arguments, at,
    declaration, expr, expr_tail, expr_then, in_class, is_digit, items, keyword_at,
    lemma_number_reads_decimal, lemma_run_length, line, number, number_at, operand,
    operator_at, program, run, spaced, spells, type_at, word, word_at,
};
use crate::interpreter::{
    Fault, STEP_LIMIT, lemma_print_int_writes_decimal, print_program, run_program,
};
use crate::node::{AbstractType, NodeModel, ProgramModel, StatementModel};
use crate::stdlib::Builtin;
use crate::text::{decimal, decimal_digits};
use vstd::prelude::*;
use vstd::string::StringSliceAdditionalSpecFns;

verus! {

/// The bytes of `let x: i32 = `.
pub open spec fn echo_head() -> Seq<u8> {
    seq![108u8, 101, 116, 32, 120, 58, 32, 105, 51, 50, 32, 61, 32]
}

/// The bytes of `; print_int(x);`.
pub open spec fn echo_tail() -> Seq<u8> {
    seq![59u8, 32, 112, 114, 105, 110, 116, 95, 105, 110, 116, 40, 120, 41, 59]
}

/// The source text `let x: i32 = <n>; print_int(x);`, with the decimal
/// notation of `n` as the literal.
#[verifier::opaque]
pub open spec fn echo_source(n: i32) -> Seq<u8> {
    echo_head() + decimal(n as int) + echo_tail()
}

/// The name `x`.
pub open spec fn echo_name() -> Seq<u8> {
    seq![120u8]
}

/// The decimal notation of an integer is a minus sign or a digit, followed
/// by digits.
pub proof fn lemma_decimal_shape(v: int)
    ensures
        decimal(v).len() >= 1,
        forall|k: int| 1 <= k < decimal(v).len() ==> is_digit(#[trigger] decimal(v)[k]),
        is_digit(decimal(v)[0]) || decimal(v)[0] == 45,
{
    let m: nat = if v < 0 {
        (-v) as nat
    } else {
        v as nat
    };
    lemma_digits_shape(m);
}

/// The decimal digits of a number are digits, and at least one.
pub proof fn lemma_digits_shape(m: nat)
    ensures
        decimal_digits(m).len() >= 1,
        forall|k: int| 0 <= k < decimal_digits(m).len() ==> is_digit(#[trigger] decimal_digits(m)[k]),
    decreases m,
{
    if m >= 10 {
        lemma_digits_shape(m / 10);
    }
}

/// The bytes of the keywords and names that the source text holds, and the
/// lengths of the keywords that it does not hold.
#[verifier::rlimit(40)]
pub proof fn lemma_spellings()
    ensures
        "let".spec_bytes() == seq![108u8, 101, 116],
        "i32".spec_bytes() == seq![105u8, 51, 50],
        "print_int".spec_bytes() == seq![112u8, 114, 105, 110, 116, 95, 105, 110, 116],
        "fn".spec_bytes().len() == 2,
        "if".spec_bytes().len() == 2,
        "loop".spec_bytes().len() == 4,
        "true".spec_bytes().len() == 4,
        "false".spec_bytes().len() == 5,
        "while".spec_bytes().len() == 5,
        "return".spec_bytes().len() == 6,
{
    reveal_strlit("let");
    reveal_strlit("fn");
    reveal_strlit("return");
    reveal_strlit("if");
    reveal_strlit("while");
    reveal_strlit("loop");
    reveal_strlit("i32");
    reveal_strlit("true");
    reveal_strlit("false");
    reveal_strlit("print_int");
    vstd::string::is_ascii_spec_bytes("let");
    vstd::string::is_ascii_spec_bytes("fn");
    vstd::string::is_ascii_spec_bytes("return");
    vstd::string::is_ascii_spec_bytes("if");
    vstd::string::is_ascii_spec_bytes("while");
    vstd::string::is_ascii_spec_bytes("loop");
    vstd::string::is_ascii_spec_bytes("i32");
    vstd::string::is_ascii_spec_bytes("true");
    vstd::string::is_ascii_spec_bytes("false");
    vstd::string::is_ascii_spec_bytes("print_int");
    assert("let".spec_bytes() =~= seq![108u8, 101, 116]);
    assert("i32".spec_bytes() =~= seq![105u8, 51, 50]);
    assert("print_int".spec_bytes() =~= seq![112u8, 114, 105, 110, 116, 95, 105, 110, 116]);
}

/// Whether a text holds, byte for byte, what the source text holds around a
/// literal of `d` bytes.
pub open spec fn echo_frame(s: Seq<u8>, d: int) -> bool {
    &&& d >= 1
    &&& s.len() == 28 + d
    &&& s[0] == 108 && s[1] == 101 && s[2] == 116 && s[3] == 32 && s[4] == 120 && s[5] == 58
    &&& s[6] == 32 && s[7] == 105 && s[8] == 51 && s[9] == 50 && s[10] == 32 && s[11] == 61
    &&& s[12] == 32
    &&& s[13 + d] == 59 && s[14 + d] == 32 && s[15 + d] == 112 && s[16 + d] == 114
    &&& s[17 + d] == 105 && s[18 + d] == 110 && s[19 + d] == 116 && s[20 + d] == 95
    &&& s[21 + d] == 105 && s[22 + d] == 110 && s[23 + d] == 116 && s[24 + d] == 40
    &&& s[25 + d] == 120 && s[26 + d] == 41 && s[27 + d] == 59
}

/// The source text holds its frame and its literal.
#[verifier::rlimit(40)]
pub proof fn lemma_echo_bytes(n: i32)
    ensures
        echo_frame(echo_source(n), decimal(n as int).len() as int),
        echo_source(n).subrange(13, 13 + decimal(n as int).len() as int) == decimal(n as int),
        !in_class(Class::Space, echo_source(n)[13]),
{
    reveal(echo_source);
    let s = echo_source(n);
    let text = decimal(n as int);
    let d = text.len() as int;
    let tail = echo_tail();
    lemma_decimal_shape(n as int);
    assert(s.len() == 28 + d);
    assert(s.subrange(13, 13 + d) =~= text);
    assert(s[13] == text[0]);
    assert(s[13 + d] == tail[0] && s[14 + d] == tail[1] && s[15 + d] == tail[2]);
    assert(s[16 + d] == tail[3] && s[17 + d] == tail[4] && s[18 + d] == tail[5]);
    assert(s[19 + d] == tail[6] && s[20 + d] == tail[7] && s[21 + d] == tail[8]);
    assert(s[22 + d] == tail[9] && s[23 + d] == tail[10] && s[24 + d] == tail[11]);
    assert(s[25 + d] == tail[12] && s[26 + d] == tail[13] && s[27 + d] == tail[14]);
}

/// The runs of word bytes and of white space in the first statement.
pub open spec fn echo_first_runs(s: Seq<u8>, d: int) -> bool {
    &&& run(s, 0, Class::Space) == 0
    &&& run(s, 0, Class::Word) == 3
    &&& run(s, 3, Class::Space) == 1
    &&& run(s, 4, Class::Word) == 1
    &&& run(s, 5, Class::Space) == 0
    &&& run(s, 6, Class::Space) == 1
    &&& run(s, 7, Class::Word) == 3
    &&& run(s, 10, Class::Space) == 1
    &&& run(s, 12, Class::Space) == 1
    &&& run(s, 13 + d, Class::Space) == 0
    &&& run(s, 14 + d, Class::Space) == 1
}

pub proof fn lemma_echo_first_runs(s: Seq<u8>, d: int)
    requires
        echo_frame(s, d),
        !in_class(Class::Space, s[13]),
    ensures
        echo_first_runs(s, d),
{
    lemma_run_length(s, 0, 0, Class::Space);
    lemma_run_length(s, 0, 3, Class::Word);
    lemma_run_length(s, 3, 1, Class::Space);
    lemma_run_length(s, 4, 1, Class::Word);
    lemma_run_length(s, 5, 0, Class::Space);
    lemma_run_length(s, 6, 1, Class::Space);
    lemma_run_length(s, 7, 3, Class::Word);
    lemma_run_length(s, 10, 1, Class::Space);
    lemma_run_length(s, 12, 1, Class::Space);
    lemma_run_length(s, 13 + d, 0, Class::Space);
    lemma_run_length(s, 14 + d, 1, Class::Space);
}

/// The runs of word bytes and of white space in the second statement, which
/// starts at `p`.
pub open spec fn echo_second_runs(s: Seq<u8>, p: int) -> bool {
    &&& run(s, p, Class::Word) == 9
    &&& run(s, p + 9, Class::Space) == 0
    &&& run(s, p + 10, Class::Space) == 0
    &&& run(s, p + 10, Class::Word) == 1
    &&& run(s, p + 11, Class::Space) == 0
    &&& run(s, p + 12, Class::Space) == 0
    &&& run(s, p + 13, Class::Space) == 0
}

pub proof fn lemma_echo_second_runs(s: Seq<u8>, d: int)
    requires
        echo_frame(s, d),
    ensures
        echo_second_runs(s, 15 + d),
{
    let p = 15 + d;
    lemma_run_length(s, p, 9, Class::Word);
    lemma_run_length(s, p + 9, 0, Class::Space);
    lemma_run_length(s, p + 10, 0, Class::Space);
    lemma_run_length(s, p + 10, 1, Class::Word);
    lemma_run_length(s, p + 11, 0, Class::Space);
    lemma_run_length(s, p + 12, 0, Class::Space);
    lemma_run_length(s, p + 13, 0, Class::Space);
}

/// No keyword is spelled by a word of another length.
pub proof fn lemma_not_spelled(w: Seq<u8>, text: &str)
    requires
        w.len() != text.spec_bytes().len(),
    ensures
        !spells(w, text),
{
    reveal(spells);
}

/// A word is spelled by the text that has its bytes.
pub proof fn lemma_spelled(w: Seq<u8>, text: &str)
    requires
        w =~= text.spec_bytes(),
    ensures
        spells(w, text),
{
    reveal(spells);
}

/// An operand that no operator follows is an expression.
pub proof fn lemma_operand_alone(s: Seq<u8>, pos: int, node: NodeModel, taken: nat)
    requires
        operand(s, pos) == Ok::<(NodeModel, nat), ParseError>((node, taken)),
        operator_at(s, pos + taken) is None,
    ensures
        expr(s, pos) == Ok::<(NodeModel, nat), ParseError>((node, taken)),
{
    reveal(operand);
    reveal(expr_tail);
    reveal(expr);
    reveal(arguments);
}

/// An integer literal is an operand.
pub proof fn lemma_number_operand(s: Seq<u8>, pos: int)
    requires
        number_at(s, pos),
    ensures
        operand(s, pos) == number(s, pos),
{
    reveal(operand);
    reveal(expr_tail);
    reveal(expr);
    reveal(arguments);
}

/// A name that is no keyword and that no parenthesis follows is an operand:
/// the variable of that name.
pub proof fn lemma_variable_operand(s: Seq<u8>, pos: int)
    requires
        word_at(s, pos),
        !keyword_at(s, pos, "true"),
        !keyword_at(s, pos, "false"),
        !at(s, pos + spaced(s, pos, run(s, pos, Class::Word)), OPEN_PAREN),
    ensures
        operand(s, pos) == Ok::<(NodeModel, nat), ParseError>(
            (NodeModel::Get { name: word(s, pos) }, spaced(s, pos, run(s, pos, Class::Word))),
        ),
{
    reveal(operand);
    reveal(expr_tail);
    reveal(expr);
    reveal(arguments);
}

/// A name that is no keyword, with one expression in parentheses after it,
/// is an operand: the call of that name with that argument.
pub proof fn lemma_call_operand(s: Seq<u8>, pos: int, argument: NodeModel, taken: nat)
    requires
        word_at(s, pos),
        !keyword_at(s, pos, "true"),
        !keyword_at(s, pos, "false"),
        at(s, pos + spaced(s, pos, run(s, pos, Class::Word)), OPEN_PAREN),
        ({
            let name = spaced(s, pos, run(s, pos, Class::Word));
            let open = name + spaced(s, pos + name, 1);
            &&& !at(s, pos + open, CLOSE_PAREN)
            &&& expr(s, pos + open) == Ok::<(NodeModel, nat), ParseError>((argument, taken))
            &&& at(s, pos + open + taken, CLOSE_PAREN)
        }),
    ensures
        ({
            let name = spaced(s, pos, run(s, pos, Class::Word));
            let open = name + spaced(s, pos + name, 1);
            operand(s, pos) == Ok::<(NodeModel, nat), ParseError>(
                (
                    NodeModel::Function { name: word(s, pos), args: seq![argument] },
                    open + taken + spaced(s, pos + open + taken, 1),
                ),
            )
        }),
{
    reveal(operand);
    reveal(expr_tail);
    reveal(expr);
    reveal(arguments);
    assert(Seq::<NodeModel>::empty().push(argument) =~= seq![argument]);
}

/// An expression and a semicolon after it are a statement, where the
/// expression starts with no keyword of a statement.
pub proof fn lemma_expression_line(s: Seq<u8>, pos: int, node: NodeModel, taken: nat)
    requires
        !keyword_at(s, pos, "let"),
        !keyword_at(s, pos, "return"),
        !keyword_at(s, pos, "if"),
        !keyword_at(s, pos, "while"),
        !keyword_at(s, pos, "loop"),
        expr(s, pos) == Ok::<(NodeModel, nat), ParseError>((node, taken)),
        at(s, pos + taken, SEMICOLON),
    ensures
        line(s, pos) == Ok::<(StatementModel, nat), ParseError>(
            (StatementModel::Node(node), taken + spaced(s, pos + taken, 1)),
        ),
{
    reveal(line);
    reveal(crate::grammar::lines);
    reveal(crate::grammar::block);
    reveal(expr_then);
}

/// The keyword `let`, a name, a colon, a type, an equals sign, an expression
/// and a semicolon are a statement: the declaration of the variable.
pub proof fn lemma_declaration_line(
    s: Seq<u8>,
    pos: int,
    var_type: AbstractType,
    value: NodeModel,
    taken: nat,
)
    requires
        keyword_at(s, pos, "let"),
        ({
            let key = spaced(s, pos, run(s, pos, Class::Word));
            let named = spaced(s, pos + key, run(s, pos + key, Class::Word));
            let colon = spaced(s, pos + key + named, 1);
            let typed = spaced(
                s,
                pos + key + named + colon,
                run(s, pos + key + named + colon, Class::Word),
            );
            let equals = spaced(s, pos + key + named + colon + typed, 1);
            let head = key + named + colon + typed + equals;
            &&& word_at(s, pos + key)
            &&& at(s, pos + key + named, COLON)
            &&& type_at(s, pos + key + named + colon) == Ok::<(AbstractType, nat), ParseError>(
                (var_type, typed),
            )
            &&& at(s, pos + key + named + colon + typed, EQUALS)
            &&& expr(s, pos + head) == Ok::<(NodeModel, nat), ParseError>((value, taken))
            &&& at(s, pos + head + taken, SEMICOLON)
        }),
    ensures
        ({
            let key = spaced(s, pos, run(s, pos, Class::Word));
            let named = spaced(s, pos + key, run(s, pos + key, Class::Word));
            let colon = spaced(s, pos + key + named, 1);
            let typed = spaced(
                s,
                pos + key + named + colon,
                run(s, pos + key + named + colon, Class::Word),
            );
            let equals = spaced(s, pos + key + named + colon + typed, 1);
            let head = key + named + colon + typed + equals;
            line(s, pos) == Ok::<(StatementModel, nat), ParseError>(
                (
                    StatementModel::Node(
                        NodeModel::Let {
                            name: word(s, pos + key),
                            var_type,
                            value: Box::new(value),
                        },
                    ),
                    head + taken + spaced(s, pos + head + taken, 1),
                ),
            )
        }),
{
    reveal(line);
    reveal(crate::grammar::lines);
    reveal(crate::grammar::block);
    reveal(expr_then);
    reveal(declaration);
}

/// The literal of the source text is an expression: the integer.
#[verifier::rlimit(40)]
pub proof fn lemma_echo_value(n: i32)
    ensures
        expr(echo_source(n), 13) == Ok::<(NodeModel, nat), ParseError>(
            (NodeModel::Int(n), decimal(n as int).len()),
        ),
{
    let s = echo_source(n);
    let d = decimal(n as int).len() as int;
    lemma_echo_bytes(n);
    lemma_run_length(s, 13 + d, 0, Class::Space);
    lemma_number_reads_decimal(s, 13, n);
    lemma_number_operand(s, 13);
    assert(operator_at(s, 13 + d) is None);
    lemma_operand_alone(s, 13, NodeModel::Int(n), d as nat);
}

/// The first statement of the source text starts with the keyword `let`.
#[verifier::rlimit(40)]
pub proof fn lemma_echo_keyword(n: i32)
    ensures
        keyword_at(echo_source(n), 0, "let"),
        !keyword_at(echo_source(n), 0, "fn"),
{
    let s = echo_source(n);
    lemma_echo_bytes(n);
    lemma_run_length(s, 0, 3, Class::Word);
    lemma_spellings();
    assert(word(s, 0) =~= "let".spec_bytes());
    lemma_spelled(word(s, 0), "let");
    lemma_not_spelled(word(s, 0), "fn");
}

/// The first statement of the source text declares the type `i32`.
#[verifier::rlimit(40)]
pub proof fn lemma_echo_type(n: i32)
    ensures
        type_at(echo_source(n), 7) == Ok::<(AbstractType, nat), ParseError>(
            (AbstractType::Integer, 4),
        ),
{
    let s = echo_source(n);
    lemma_echo_bytes(n);
    lemma_run_length(s, 7, 3, Class::Word);
    lemma_run_length(s, 10, 1, Class::Space);
    lemma_spellings();
    assert(word(s, 7) =~= "i32".spec_bytes());
    lemma_spelled(word(s, 7), "i32");
}

/// The first statement of the source text declares the name `x`.
#[verifier::rlimit(40)]
pub proof fn lemma_echo_variable(n: i32)
    ensures
        word(echo_source(n), 4) == echo_name(),
{
    let s = echo_source(n);
    lemma_echo_bytes(n);
    lemma_run_length(s, 4, 1, Class::Word);
    assert(word(s, 4) =~= echo_name());
}

/// The first statement of the source text binds the integer to `x`.
#[verifier::rlimit(40)]
pub proof fn lemma_echo_first_line(n: i32)
    ensures
        line(echo_source(n), 0) == Ok::<(StatementModel, nat), ParseError>(
            (
                StatementModel::Node(
                    NodeModel::Let {
                        name: echo_name(),
                        var_type: AbstractType::Integer,
                        value: Box::new(NodeModel::Int(n)),
                    },
                ),
                (15 + decimal(n as int).len()) as nat,
            ),
        ),
        !keyword_at(echo_source(n), 0, "fn"),
        run(echo_source(n), 0, Class::Space) == 0,
{
    let s = echo_source(n);
    let d = decimal(n as int).len() as int;
    lemma_echo_bytes(n);
    lemma_echo_first_runs(s, d);
    lemma_echo_keyword(n);
    lemma_echo_type(n);
    lemma_echo_variable(n);
    lemma_echo_value(n);
    lemma_declaration_line(s, 0, AbstractType::Integer, NodeModel::Int(n), d as nat);
}

/// The second statement of the source text prints `x`.
#[verifier::rlimit(40)]
pub proof fn lemma_echo_second_line(n: i32)
    ensures
        line(echo_source(n), 15 + decimal(n as int).len() as int) == Ok::<
            (StatementModel, nat),
            ParseError,
        >(
            (
                StatementModel::Node(
                    NodeModel::Function {
                        name: Builtin::PrintInt.name(),
                        args: seq![NodeModel::Get { name: echo_name() }],
                    },
                ),
                13,
            ),
        ),
        !keyword_at(echo_source(n), 15 + decimal(n as int).len() as int, "fn"),
{
    let s = echo_source(n);
    let d = decimal(n as int).len() as int;
    let p = 15 + d;
    lemma_echo_bytes(n);
    lemma_echo_second_runs(s, d);
    lemma_spellings();
    assert(word(s, p) =~= Builtin::PrintInt.name());
    assert(word(s, p + 10) =~= echo_name());
    lemma_not_spelled(word(s, p), "let");
    lemma_not_spelled(word(s, p), "return");
    lemma_not_spelled(word(s, p), "if");
    lemma_not_spelled(word(s, p), "while");
    lemma_not_spelled(word(s, p), "loop");
    lemma_not_spelled(word(s, p), "fn");
    lemma_not_spelled(word(s, p), "true");
    lemma_not_spelled(word(s, p), "false");
    lemma_not_spelled(word(s, p + 10), "true");
    lemma_not_spelled(word(s, p + 10), "false");
    let read = NodeModel::Get { name: echo_name() };
    let call = NodeModel::Function { name: Builtin::PrintInt.name(), args: seq![read] };
    lemma_variable_operand(s, p + 10);
    assert(operator_at(s, p + 11) is None);
    lemma_operand_alone(s, p + 10, read, 1);
    lemma_call_operand(s, p, read, 1);
    assert(operator_at(s, p + 12) is None);
    lemma_operand_alone(s, p, call, 12);
    lemma_expression_line(s, p, call, 12);
}

/// A statement at the top of a text, where no function is declared, is added
/// to the statements of the program.
pub proof fn lemma_statement_item(
    s: Seq<u8>,
    pos: int,
    done: ProgramModel,
    statement: StatementModel,
    taken: nat,
)
    requires
        0 <= pos < s.len(),
        !keyword_at(s, pos, "fn"),
        line(s, pos) == Ok::<(StatementModel, nat), ParseError>((statement, taken)),
        taken > 0,
    ensures
        items(s, pos, done) == items(
            s,
            pos + taken,
            ProgramModel {
                statements: done.statements.push(statement),
                functions: done.functions,
            },
        ),
{
    reveal(items);
}

/// At the end of the text the program is complete.
pub proof fn lemma_items_end(s: Seq<u8>, pos: int, done: ProgramModel)
    requires
        pos >= s.len(),
    ensures
        items(s, pos, done) == Ok::<ProgramModel, ParseError>(done),
{
    reveal(items);
}

/// The length of the source text.
pub proof fn lemma_echo_length(n: i32)
    ensures
        echo_source(n).len() == 28 + decimal(n as int).len(),
{
    reveal(echo_source);
}

/// The grammar reads the source text as the program that binds the integer
/// to `x` and prints `x`.
#[verifier::rlimit(40)]
pub proof fn lemma_echo_parses(n: i32)
    ensures
        program(echo_source(n)) == Ok::<ProgramModel, ParseError>(print_program(echo_name(), n)),
{
    let s = echo_source(n);
    let d = decimal(n as int).len() as int;
    let p = 15 + d;
    lemma_echo_length(n);
    lemma_echo_first_line(n);
    lemma_echo_second_line(n);
    let bound = StatementModel::Node(
        NodeModel::Let {
            name: echo_name(),
            var_type: AbstractType::Integer,
            value: Box::new(NodeModel::Int(n)),
        },
    );
    let call = StatementModel::Node(
        NodeModel::Function {
            name: Builtin::PrintInt.name(),
            args: seq![NodeModel::Get { name: echo_name() }],
        },
    );
    let none = ProgramModel { statements: Seq::empty(), functions: Seq::empty() };
    let one = ProgramModel { statements: none.statements.push(bound), functions: Seq::empty() };
    let both = ProgramModel { statements: one.statements.push(call), functions: Seq::empty() };
    lemma_statement_item(s, 0, none, bound, p as nat);
    lemma_statement_item(s, p, one, call, 13);
    lemma_items_end(s, p + 13, both);
    assert(both.statements =~= print_program(echo_name(), n).statements);
}

/// Every 32-bit integer comes back as it was written: the program
/// `let x: i32 = <n>; print_int(x);` writes the decimal notation of `n` and a
/// line feed.
pub proof fn lemma_echo_writes_the_literal(n: i32)
    ensures
        match program(echo_source(n)) {
            Ok(parsed) => run_program(parsed, STEP_LIMIT as nat) == Ok::<Seq<u8>, Fault>(
                decimal(n as int) + seq![10u8],
            ),
            Err(_) => false,
        },
{
    lemma_echo_parses(n);
    lemma_print_int_writes_decimal(echo_name(), n);
}

} // verus!
