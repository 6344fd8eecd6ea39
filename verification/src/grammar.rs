//! The grammar of the language, as functions from the source bytes and a
//! position to what stands there and how many bytes it takes.
//!
//! A construct starts at a byte that is no white space, and the bytes it takes
//! include the white space after it. Binary expressions have one level of
//! precedence and are read from left to right; parentheses group.

use crate::node::{
    AbstractType, BinaryOp, DefinitionModel, FunctionModel, NodeModel, ProgramModel,
    StatementModel, binary,
};
use crate::text::{decimal, decimal_digits};
use vstd::prelude::*;
use vstd::string::StringSliceAdditionalSpecFns;

verus! {

/// The bytes of the punctuation of the language.
pub const BANG: u8 = 33;
pub const QUOTE: u8 = 34;
pub const OPEN_PAREN: u8 = 40;
pub const CLOSE_PAREN: u8 = 41;
pub const STAR: u8 = 42;
pub const PLUS: u8 = 43;
pub const COMMA: u8 = 44;
pub const MINUS: u8 = 45;
pub const SLASH: u8 = 47;
pub const COLON: u8 = 58;
pub const SEMICOLON: u8 = 59;
pub const LESS: u8 = 60;
pub const EQUALS: u8 = 61;
pub const GREATER: u8 = 62;
pub const QUESTION: u8 = 63;
pub const OPEN_BRACE: u8 = 123;
pub const CLOSE_BRACE: u8 = 125;

/// What the parser looked for where it gave up.
#[derive(Debug, Clone, Copy, PartialEq, Eq, Structural)]
pub enum Rule {
    /// A literal, a name, a call or an expression in parentheses.
    Operand,
    /// An integer literal that fits 32 bits with sign.
    Number,
    /// The closing quote of a string literal.
    StringLiteral,
    Identifier,
    /// One of the type keywords `i32`, `bool`, `str`, `void`.
    Type,
    OpenParen,
    CloseParen,
    OpenBrace,
    CloseBrace,
    Colon,
    Equals,
    Arrow,
    Semicolon,
}

/// Where and why a source text is no program.
#[derive(Debug, Clone, Copy, PartialEq, Eq, Structural)]
pub struct ParseError {
    pub position: usize,
    pub rule: Rule,
}

/// The failure to find `rule` at `pos`.
pub open spec fn fail<T>(pos: int, rule: Rule) -> Result<T, ParseError> {
    Err(ParseError { position: pos as usize, rule })
}

/// The classes of bytes that tokens are made of.
#[derive(Debug, Clone, Copy, PartialEq, Eq, Structural)]
pub enum Class {
    /// Blank, tab, line feed, carriage return.
    Space,
    /// ASCII letters, digits and the underscore.
    Word,
    /// ASCII digits.
    Digit,
    /// Every byte but the double quote.
    Quoted,
}

pub open spec fn is_digit(b: u8) -> bool {
    48 <= b <= 57
}

pub open spec fn is_word_start(b: u8) -> bool {
    (65 <= b <= 90) || (97 <= b <= 122) || b == 95
}

pub open spec fn in_class(class: Class, b: u8) -> bool {
    match class {
        Class::Space => b == 32 || b == 9 || b == 10 || b == 13,
        Class::Word => is_word_start(b) || is_digit(b),
        Class::Digit => is_digit(b),
        Class::Quoted => b != QUOTE,
    }
}

/// The number of bytes from `pos` on that belong to `class`, up to the first
/// that does not.
pub open spec fn run(s: Seq<u8>, pos: int, class: Class) -> nat
    decreases s.len() - pos,
{
    if 0 <= pos < s.len() && in_class(class, s[pos]) {
        1 + run(s, pos + 1, class)
    } else {
        0
    }
}

/// The number of bytes from `pos` to the end of the text.
pub open spec fn left(s: Seq<u8>, pos: int) -> nat {
    if pos <= s.len() {
        (s.len() - pos) as nat
    } else {
        0
    }
}

/// The bytes that a token of `n` bytes at `pos` takes with the white space
/// after it.
pub open spec fn spaced(s: Seq<u8>, pos: int, n: nat) -> nat {
    n + run(s, pos + n, Class::Space)
}

/// Whether the byte at `pos` is `b`.
pub open spec fn at(s: Seq<u8>, pos: int, b: u8) -> bool {
    0 <= pos < s.len() && s[pos] == b
}

/// Whether a word starts at `pos`.
pub open spec fn word_at(s: Seq<u8>, pos: int) -> bool {
    0 <= pos < s.len() && is_word_start(s[pos])
}

/// The word at `pos`: the longest run of word bytes.
pub open spec fn word(s: Seq<u8>, pos: int) -> Seq<u8> {
    s.subrange(pos, pos + run(s, pos, Class::Word))
}

/// Whether a word is spelled as `text`.
#[verifier::opaque]
pub open spec fn spells(w: Seq<u8>, text: &str) -> bool {
    w == text.spec_bytes()
}

/// Whether the word at `pos` is the keyword `text`.
pub open spec fn keyword_at(s: Seq<u8>, pos: int, text: &str) -> bool {
    word_at(s, pos) && spells(word(s, pos), text)
}

/// The number that the decimal digits from `from` up to `to` stand for.
pub open spec fn digits_value(s: Seq<u8>, from: int, to: int) -> nat
    decreases to - from,
{
    if to <= from || to > s.len() || from < 0 {
        0
    } else {
        digits_value(s, from, to - 1) * 10 + (s[to - 1] - 48) as nat
    }
}

/// Whether an integer literal starts at `pos`: a digit, or a minus sign and a
/// digit.
pub open spec fn number_at(s: Seq<u8>, pos: int) -> bool {
    0 <= pos < s.len() && (is_digit(s[pos]) || (s[pos] == MINUS && pos + 1 < s.len() && is_digit(
        s[pos + 1],
    )))
}

/// The integer literal at `pos`. One that does not fit 32 bits with sign is
/// an error.
pub open spec fn number(s: Seq<u8>, pos: int) -> Result<(NodeModel, nat), ParseError> {
    let sign: nat = if at(s, pos, MINUS) {
        1
    } else {
        0
    };
    let digits = run(s, pos + sign, Class::Digit);
    let magnitude = digits_value(s, pos + sign, pos + sign + digits);
    let value = if sign == 1 {
        -magnitude
    } else {
        magnitude as int
    };
    if i32::MIN <= value <= i32::MAX {
        Ok((NodeModel::Int(value as i32), spaced(s, pos, sign + digits)))
    } else {
        fail(pos, Rule::Number)
    }
}

/// The string literal at `pos`, where a double quote stands: the bytes up to
/// the next double quote, as they are.
pub open spec fn string_literal(s: Seq<u8>, pos: int) -> Result<(NodeModel, nat), ParseError> {
    let length = run(s, pos + 1, Class::Quoted);
    if at(s, pos + 1 + length, QUOTE) {
        Ok(
            (
                NodeModel::StringLiteral(s.subrange(pos + 1, pos + 1 + length)),
                spaced(s, pos, length + 2),
            ),
        )
    } else {
        fail(pos, Rule::StringLiteral)
    }
}

/// The name at `pos`.
pub open spec fn identifier(s: Seq<u8>, pos: int) -> Result<(Seq<u8>, nat), ParseError> {
    if word_at(s, pos) {
        Ok((word(s, pos), spaced(s, pos, run(s, pos, Class::Word))))
    } else {
        fail(pos, Rule::Identifier)
    }
}

/// The type keyword at `pos`.
pub open spec fn type_at(s: Seq<u8>, pos: int) -> Result<(AbstractType, nat), ParseError> {
    let taken = spaced(s, pos, run(s, pos, Class::Word));
    if keyword_at(s, pos, "i32") {
        Ok((AbstractType::Integer, taken))
    } else if keyword_at(s, pos, "bool") {
        Ok((AbstractType::Boolean, taken))
    } else if keyword_at(s, pos, "str") {
        Ok((AbstractType::String, taken))
    } else if keyword_at(s, pos, "void") {
        Ok((AbstractType::Void, taken))
    } else {
        fail(pos, Rule::Type)
    }
}

/// The one byte `b` at `pos`, or the failure to find `rule`.
pub open spec fn expect(s: Seq<u8>, pos: int, b: u8, rule: Rule) -> Result<nat, ParseError> {
    if at(s, pos, b) {
        Ok(spaced(s, pos, 1))
    } else {
        fail(pos, rule)
    }
}

/// The binary operator at `pos` and its length in bytes, if one stands there:
/// the two-byte operators are tried first.
pub open spec fn operator_at(s: Seq<u8>, pos: int) -> Option<(BinaryOp, nat)> {
    if at(s, pos, EQUALS) && at(s, pos + 1, EQUALS) {
        Some((BinaryOp::Equal, 2))
    } else if at(s, pos, BANG) && at(s, pos + 1, EQUALS) {
        Some((BinaryOp::NotEqual, 2))
    } else if at(s, pos, EQUALS) && at(s, pos + 1, QUESTION) {
        Some((BinaryOp::BoolEqual, 2))
    } else if at(s, pos, BANG) && at(s, pos + 1, QUESTION) {
        Some((BinaryOp::BoolNotEqual, 2))
    } else if at(s, pos, LESS) && at(s, pos + 1, EQUALS) {
        Some((BinaryOp::LessThanOrEqual, 2))
    } else if at(s, pos, GREATER) && at(s, pos + 1, EQUALS) {
        Some((BinaryOp::GreaterThanOrEqual, 2))
    } else if at(s, pos, LESS) {
        Some((BinaryOp::LessThan, 1))
    } else if at(s, pos, GREATER) {
        Some((BinaryOp::GreaterThan, 1))
    } else if at(s, pos, PLUS) {
        Some((BinaryOp::Add, 1))
    } else if at(s, pos, MINUS) {
        Some((BinaryOp::Subtract, 1))
    } else if at(s, pos, STAR) {
        Some((BinaryOp::Multiply, 1))
    } else if at(s, pos, SLASH) {
        Some((BinaryOp::Divide, 1))
    } else {
        None
    }
}

/// The operand at `pos`: an integer literal, a string literal, an expression
/// in parentheses, `true`, `false`, a call, or a variable.
#[verifier::opaque]
pub open spec fn operand(s: Seq<u8>, pos: int) -> Result<(NodeModel, nat), ParseError>
    decreases left(s, pos), 0nat,
{
    if number_at(s, pos) {
        number(s, pos)
    } else if at(s, pos, QUOTE) {
        string_literal(s, pos)
    } else if at(s, pos, OPEN_PAREN) {
        let open = spaced(s, pos, 1);
        match expr(s, pos + open) {
            Err(e) => Err(e),
            Ok((node, taken)) => match expect(s, pos + open + taken, CLOSE_PAREN, Rule::CloseParen) {
                Err(e) => Err(e),
                Ok(close) => Ok((node, open + taken + close)),
            },
        }
    } else if word_at(s, pos) {
        let name = spaced(s, pos, run(s, pos, Class::Word));
        if keyword_at(s, pos, "true") {
            Ok((NodeModel::Bool(true), name))
        } else if keyword_at(s, pos, "false") {
            Ok((NodeModel::Bool(false), name))
        } else if at(s, pos + name, OPEN_PAREN) {
            let open = name + spaced(s, pos + name, 1);
            if at(s, pos + open, CLOSE_PAREN) {
                Ok(
                    (
                        NodeModel::Function { name: word(s, pos), args: Seq::empty() },
                        open + spaced(s, pos + open, 1),
                    ),
                )
            } else {
                match arguments(s, pos + open, Seq::empty(), 0) {
                    Err(e) => Err(e),
                    Ok((args, taken)) => Ok(
                        (NodeModel::Function { name: word(s, pos), args }, open + taken),
                    ),
                }
            }
        } else {
            Ok((NodeModel::Get { name: word(s, pos) }, name))
        }
    } else {
        fail(pos, Rule::Operand)
    }
}

/// What follows an operand inside an expression: operators and operands in
/// turn, folded onto `lhs` from the left. `used` bytes were taken before `pos`.
#[verifier::opaque]
pub open spec fn expr_tail(s: Seq<u8>, pos: int, lhs: NodeModel, used: nat) -> Result<
    (NodeModel, nat),
    ParseError,
>
    decreases left(s, pos), 1nat,
{
    match operator_at(s, pos) {
        None => Ok((lhs, used)),
        Some((op, length)) => {
            let sign = spaced(s, pos, length);
            if length == 0 {
                fail(pos, Rule::Operand)
            } else {
                match operand(s, pos + sign) {
                    Err(e) => Err(e),
                    Ok((rhs, taken)) => expr_tail(
                        s,
                        pos + sign + taken,
                        binary(op, lhs, rhs),
                        used + sign + taken,
                    ),
                }
            }
        },
    }
}

/// The expression at `pos`.
#[verifier::opaque]
pub open spec fn expr(s: Seq<u8>, pos: int) -> Result<(NodeModel, nat), ParseError>
    decreases left(s, pos), 2nat,
{
    match operand(s, pos) {
        Err(e) => Err(e),
        Ok((lhs, taken)) => expr_tail(s, pos + taken, lhs, taken),
    }
}

/// The arguments of a call from `pos` on, separated by commas, up to and with
/// the closing parenthesis, added to `done`.
#[verifier::opaque]
pub open spec fn arguments(s: Seq<u8>, pos: int, done: Seq<NodeModel>, used: nat) -> Result<
    (Seq<NodeModel>, nat),
    ParseError,
>
    decreases left(s, pos), 3nat,
{
    match expr(s, pos) {
        Err(e) => Err(e),
        Ok((node, taken)) => if at(s, pos + taken, COMMA) {
            let comma = spaced(s, pos + taken, 1);
            arguments(s, pos + taken + comma, done.push(node), used + taken + comma)
        } else {
            match expect(s, pos + taken, CLOSE_PAREN, Rule::CloseParen) {
                Err(e) => Err(e),
                Ok(close) => Ok((done.push(node), used + taken + close)),
            }
        },
    }
}

/// An expression from `pos` on and the one byte `b` after it.
#[verifier::opaque]
pub open spec fn expr_then(s: Seq<u8>, pos: int, b: u8, rule: Rule) -> Result<
    (NodeModel, nat),
    ParseError,
>
    decreases left(s, pos), 3nat,
{
    match expr(s, pos) {
        Err(e) => Err(e),
        Ok((node, taken)) => match expect(s, pos + taken, b, rule) {
            Err(e) => Err(e),
            Ok(end) => Ok((node, taken + end)),
        },
    }
}

/// A condition in parentheses at `pos`.
#[verifier::opaque]
pub open spec fn condition(s: Seq<u8>, pos: int) -> Result<(NodeModel, nat), ParseError>
    decreases left(s, pos), 4nat,
{
    match expect(s, pos, OPEN_PAREN, Rule::OpenParen) {
        Err(e) => Err(e),
        Ok(open) => match expr_then(s, pos + open, CLOSE_PAREN, Rule::CloseParen) {
            Err(e) => Err(e),
            Ok((node, taken)) => Ok((node, open + taken)),
        },
    }
}

/// The declaration of a variable after the keyword `let`, from the name on.
#[verifier::opaque]
pub open spec fn declaration(s: Seq<u8>, pos: int) -> Result<(NodeModel, nat), ParseError>
    decreases left(s, pos), 4nat,
{
    match identifier(s, pos) {
        Err(e) => Err(e),
        Ok((name, named)) => match expect(s, pos + named, COLON, Rule::Colon) {
            Err(e) => Err(e),
            Ok(colon) => match type_at(s, pos + named + colon) {
                Err(e) => Err(e),
                Ok((var_type, typed)) => match expect(
                    s,
                    pos + named + colon + typed,
                    EQUALS,
                    Rule::Equals,
                ) {
                    Err(e) => Err(e),
                    Ok(equals) => {
                        let head = named + colon + typed + equals;
                        match expr_then(s, pos + head, SEMICOLON, Rule::Semicolon) {
                            Err(e) => Err(e),
                            Ok((value, taken)) => Ok(
                                (
                                    NodeModel::Let { name, var_type, value: Box::new(value) },
                                    head + taken,
                                ),
                            ),
                        }
                    },
                },
            },
        }
    }
}

/// The statement at `pos`.
#[verifier::opaque]
pub open spec fn line(s: Seq<u8>, pos: int) -> Result<(StatementModel, nat), ParseError>
    decreases left(s, pos), 5nat,
{
    let key = spaced(s, pos, run(s, pos, Class::Word));
    if keyword_at(s, pos, "let") {
        match declaration(s, pos + key) {
            Err(e) => Err(e),
            Ok((node, taken)) => Ok((StatementModel::Node(node), key + taken)),
        }
    } else if keyword_at(s, pos, "return") {
        match expr_then(s, pos + key, SEMICOLON, Rule::Semicolon) {
            Err(e) => Err(e),
            Ok((node, taken)) => Ok((StatementModel::Return(node), key + taken)),
        }
    } else if keyword_at(s, pos, "if") {
        match condition(s, pos + key) {
            Err(e) => Err(e),
            Ok((test, tested)) => match block(s, pos + key + tested) {
                Err(e) => Err(e),
                Ok((branch, taken)) => {
                    let head = key + tested + taken;
                    if keyword_at(s, pos + head, "else") {
                        let other = spaced(s, pos + head, run(s, pos + head, Class::Word));
                        match block(s, pos + head + other) {
                            Err(e) => Err(e),
                            Ok((else_branch, rest)) => Ok(
                                (
                                    StatementModel::If { condition: test, branch, else_branch },
                                    head + other + rest,
                                ),
                            ),
                        }
                    } else {
                        Ok(
                            (
                                StatementModel::If {
                                    condition: test,
                                    branch,
                                    else_branch: Seq::empty(),
                                },
                                head,
                            ),
                        )
                    }
                },
            },
        }
    } else if keyword_at(s, pos, "while") {
        match condition(s, pos + key) {
            Err(e) => Err(e),
            Ok((test, tested)) => match block(s, pos + key + tested) {
                Err(e) => Err(e),
                Ok((loop_statements, taken)) => Ok(
                    (
                        StatementModel::While { condition: test, loop_statements },
                        key + tested + taken,
                    ),
                ),
            },
        }
    } else if keyword_at(s, pos, "loop") {
        match block(s, pos + key) {
            Err(e) => Err(e),
            Ok((body, taken)) => Ok((StatementModel::InfiniteLoop(body), key + taken)),
        }
    } else {
        match expr_then(s, pos, SEMICOLON, Rule::Semicolon) {
            Err(e) => Err(e),
            Ok((node, taken)) => Ok((StatementModel::Node(node), taken)),
        }
    }
}

/// The statements from `pos` on, up to a closing brace or the end of the
/// text, added to `done`.
#[verifier::opaque]
pub open spec fn lines(s: Seq<u8>, pos: int, done: Seq<StatementModel>, used: nat) -> Result<
    (Seq<StatementModel>, nat),
    ParseError,
>
    decreases left(s, pos), 6nat,
{
    if pos < 0 || pos >= s.len() || s[pos] == CLOSE_BRACE {
        Ok((done, used))
    } else {
        match line(s, pos) {
            Err(e) => Err(e),
            Ok((statement, taken)) => if taken == 0 {
                fail(pos, Rule::Operand)
            } else {
                lines(s, pos + taken, done.push(statement), used + taken)
            },
        }
    }
}

/// The block at `pos`: statements in braces.
#[verifier::opaque]
pub open spec fn block(s: Seq<u8>, pos: int) -> Result<(Seq<StatementModel>, nat), ParseError>
    decreases left(s, pos), 7nat,
{
    if at(s, pos, OPEN_BRACE) {
        let open = spaced(s, pos, 1);
        match lines(s, pos + open, Seq::empty(), 0) {
            Err(e) => Err(e),
            Ok((statements, taken)) => match expect(
                s,
                pos + open + taken,
                CLOSE_BRACE,
                Rule::CloseBrace,
            ) {
                Err(e) => Err(e),
                Ok(close) => Ok((statements, open + taken + close)),
            },
        }
    } else {
        fail(pos, Rule::OpenBrace)
    }
}

/// The parameters of a function from `pos` on, separated by commas, up to and
/// with the closing parenthesis, added to `done`.
#[verifier::opaque]
pub open spec fn parameters(s: Seq<u8>, pos: int, done: Seq<DefinitionModel>, used: nat) -> Result<
    (Seq<DefinitionModel>, nat),
    ParseError,
>
    decreases left(s, pos),
{
    match identifier(s, pos) {
        Err(e) => Err(e),
        Ok((name, named)) => match expect(s, pos + named, COLON, Rule::Colon) {
            Err(e) => Err(e),
            Ok(colon) => match type_at(s, pos + named + colon) {
                Err(e) => Err(e),
                Ok((data_type, typed)) => {
                    let head = named + colon + typed;
                    let all = done.push(DefinitionModel { name, data_type });
                    if at(s, pos + head, COMMA) {
                        let comma = spaced(s, pos + head, 1);
                        if named == 0 {
                            fail(pos, Rule::Identifier)
                        } else {
                            parameters(s, pos + head + comma, all, used + head + comma)
                        }
                    } else {
                        match expect(s, pos + head, CLOSE_PAREN, Rule::CloseParen) {
                            Err(e) => Err(e),
                            Ok(close) => Ok((all, used + head + close)),
                        }
                    }
                },
            },
        }
    }
}

/// The parameter list of a function at `pos`, in parentheses.
#[verifier::opaque]
pub open spec fn parameter_list(s: Seq<u8>, pos: int) -> Result<
    (Seq<DefinitionModel>, nat),
    ParseError,
> {
    match expect(s, pos, OPEN_PAREN, Rule::OpenParen) {
        Err(e) => Err(e),
        Ok(open) => if at(s, pos + open, CLOSE_PAREN) {
            Ok((Seq::empty(), open + spaced(s, pos + open, 1)))
        } else {
            match parameters(s, pos + open, Seq::empty(), 0) {
                Err(e) => Err(e),
                Ok((all, taken)) => Ok((all, open + taken)),
            }
        },
    }
}

/// The arrow `->` at `pos`.
pub open spec fn arrow(s: Seq<u8>, pos: int) -> Result<nat, ParseError> {
    if at(s, pos, MINUS) && at(s, pos + 1, GREATER) {
        Ok(spaced(s, pos, 2))
    } else {
        fail(pos, Rule::Arrow)
    }
}

/// The declaration of a function at `pos`, where the keyword `fn` stands.
#[verifier::opaque]
pub open spec fn function(s: Seq<u8>, pos: int) -> Result<
    ((Seq<u8>, FunctionModel), nat),
    ParseError,
> {
    let key = spaced(s, pos, run(s, pos, Class::Word));
    match identifier(s, pos + key) {
        Err(e) => Err(e),
        Ok((name, named)) => match parameter_list(s, pos + key + named) {
            Err(e) => Err(e),
            Ok((args, listed)) => match arrow(s, pos + key + named + listed) {
                Err(e) => Err(e),
                Ok(pointed) => {
                    let head = key + named + listed + pointed;
                    match type_at(s, pos + head) {
                        Err(e) => Err(e),
                        Ok((return_type, typed)) => match block(s, pos + head + typed) {
                            Err(e) => Err(e),
                            Ok((body, taken)) => Ok(
                                (
                                    (name, FunctionModel { body, args, return_type }),
                                    head + typed + taken,
                                ),
                            ),
                        },
                    }
                },
            },
        }
    }
}

/// The first position at or after `from` of a function called `name`.
pub open spec fn declared_at(functions: Seq<(Seq<u8>, FunctionModel)>, name: Seq<u8>, from: int) -> Option<
    int,
>
    decreases functions.len() - from,
{
    if from < 0 || from >= functions.len() {
        None
    } else if functions[from].0 == name {
        Some(from)
    } else {
        declared_at(functions, name, from + 1)
    }
}

/// The functions after one more declaration, which takes the place of an
/// earlier one of the same name.
pub open spec fn declare(
    functions: Seq<(Seq<u8>, FunctionModel)>,
    declared: (Seq<u8>, FunctionModel),
) -> Seq<(Seq<u8>, FunctionModel)> {
    match declared_at(functions, declared.0, 0) {
        Some(i) => functions.update(i, declared),
        None => functions.push(declared),
    }
}

/// Whether no two functions have one name.
pub open spec fn unique_names(functions: Seq<(Seq<u8>, FunctionModel)>) -> bool {
    forall|i: int, j: int|
        0 <= i < j < functions.len() ==> (#[trigger] functions[i]).0 != (#[trigger] functions[j]).0
}

/// Where no function at or after `from` is called `name`, none of them has
/// that name.
pub proof fn lemma_not_declared(functions: Seq<(Seq<u8>, FunctionModel)>, name: Seq<u8>, from: int)
    requires
        0 <= from,
        declared_at(functions, name, from) is None,
    ensures
        forall|k: int| from <= k < functions.len() ==> (#[trigger] functions[k]).0 != name,
    decreases functions.len() - from,
{
    if from < functions.len() {
        lemma_not_declared(functions, name, from + 1);
    }
}

/// A declaration leaves the names of the functions different from one
/// another.
pub proof fn lemma_declare_keeps_names_unique(
    functions: Seq<(Seq<u8>, FunctionModel)>,
    declared: (Seq<u8>, FunctionModel),
)
    requires
        unique_names(functions),
    ensures
        unique_names(declare(functions, declared)),
{
    match declared_at(functions, declared.0, 0) {
        Some(i) => {
            lemma_declared_position(functions, declared.0, 0);
        },
        None => {
            lemma_not_declared(functions, declared.0, 0);
        },
    }
}

/// The position that `declared_at` gives is one of the list and holds the
/// name.
pub proof fn lemma_declared_position(
    functions: Seq<(Seq<u8>, FunctionModel)>,
    name: Seq<u8>,
    from: int,
)
    requires
        0 <= from,
        declared_at(functions, name, from) is Some,
    ensures
        from <= declared_at(functions, name, from)->Some_0 < functions.len(),
        functions[declared_at(functions, name, from)->Some_0].0 == name,
    decreases functions.len() - from,
{
    if from < functions.len() && functions[from].0 != name {
        lemma_declared_position(functions, name, from + 1);
    }
}

/// The statements and function declarations from `pos` to the end of the
/// text, added to those of `done`.
#[verifier::opaque]
pub open spec fn items(s: Seq<u8>, pos: int, done: ProgramModel) -> Result<
    ProgramModel,
    ParseError,
>
    decreases left(s, pos),
{
    if pos < 0 || pos >= s.len() {
        Ok(done)
    } else if keyword_at(s, pos, "fn") {
        match function(s, pos) {
            Err(e) => Err(e),
            Ok((declared, taken)) => if taken == 0 {
                fail(pos, Rule::Operand)
            } else {
                items(
                    s,
                    pos + taken,
                    ProgramModel {
                        statements: done.statements,
                        functions: declare(done.functions, declared),
                    },
                )
            },
        }
    } else {
        match line(s, pos) {
            Err(e) => Err(e),
            Ok((statement, taken)) => if taken == 0 {
                fail(pos, Rule::Operand)
            } else {
                items(
                    s,
                    pos + taken,
                    ProgramModel {
                        statements: done.statements.push(statement),
                        functions: done.functions,
                    },
                )
            },
        }
    }
}

/// The program that a source text stands for, or the first place where it is
/// none.
pub open spec fn program(s: Seq<u8>) -> Result<ProgramModel, ParseError> {
    items(
        s,
        run(s, 0, Class::Space) as int,
        ProgramModel { statements: Seq::empty(), functions: Seq::empty() },
    )
}

/// Where `length` bytes from `from` on belong to a class and the byte after
/// them does not, or the text ends there, the run from `from` has that length.
pub proof fn lemma_run_length(s: Seq<u8>, from: int, length: nat, class: Class)
    requires
        0 <= from,
        from + length <= s.len(),
        forall|k: int| from <= k < from + length ==> in_class(class, #[trigger] s[k]),
        from + length == s.len() || !in_class(class, s[from + length]),
    ensures
        run(s, from, class) == length,
    decreases length,
{
    if length > 0 {
        lemma_run_length(s, from + 1, (length - 1) as nat, class);
    }
}

/// Where the decimal digits of `m` stand from `from` on, they are digits and
/// their value is `m`.
pub proof fn lemma_decimal_digits_value(s: Seq<u8>, from: int, m: nat)
    requires
        0 <= from,
        from + decimal_digits(m).len() <= s.len(),
        s.subrange(from, from + decimal_digits(m).len()) == decimal_digits(m),
    ensures
        decimal_digits(m).len() >= 1,
        digits_value(s, from, from + decimal_digits(m).len()) == m,
        forall|k: int| from <= k < from + decimal_digits(m).len() ==> is_digit(#[trigger] s[k]),
    decreases m,
{
    let digits = decimal_digits(m);
    let length = digits.len() as int;
    if m < 10 {
        assert(digits[0] == s[from]);
        assert(digits_value(s, from, from) == 0);
    } else {
        let front = decimal_digits(m / 10);
        assert(digits == front.push((48 + m % 10) as u8));
        assert(s.subrange(from, from + front.len()) =~= front) by {
            assert forall|k: int| 0 <= k < front.len() implies s.subrange(
                from,
                from + front.len(),
            )[k] == front[k] by {
                assert(digits[k] == s.subrange(from, from + length)[k]);
            }
        }
        lemma_decimal_digits_value(s, from, m / 10);
        assert(digits[length - 1] == s.subrange(from, from + length)[length - 1]);
        assert(s[from + length - 1] == (48 + m % 10) as u8);
        assert forall|k: int| from <= k < from + length implies is_digit(#[trigger] s[k]) by {
            if k == from + length - 1 {
            }
        }
    }
}

/// Reading back what was written: where the decimal notation of a 32-bit
/// integer stands at `pos` and no digit follows it, the integer literal
/// there is that integer, and it takes the notation and the white space
/// after it.
pub proof fn lemma_number_reads_decimal(s: Seq<u8>, pos: int, n: i32)
    requires
        0 <= pos,
        pos + decimal(n as int).len() <= s.len(),
        s.subrange(pos, pos + decimal(n as int).len()) == decimal(n as int),
        pos + decimal(n as int).len() == s.len() || !is_digit(s[pos + decimal(n as int).len()]),
    ensures
        number_at(s, pos),
        number(s, pos) == Ok::<(NodeModel, nat), ParseError>(
            (NodeModel::Int(n), spaced(s, pos, decimal(n as int).len())),
        ),
{
    let text = decimal(n as int);
    let length = text.len() as int;
    let magnitude: nat = if n < 0 {
        (-n) as nat
    } else {
        n as nat
    };
    let sign: int = if n < 0 {
        1
    } else {
        0
    };
    let digits = decimal_digits(magnitude);
    assert(text.len() == sign + digits.len());
    assert(s.subrange(pos + sign, pos + sign + digits.len()) =~= digits) by {
        assert forall|k: int| 0 <= k < digits.len() implies s.subrange(
            pos + sign,
            pos + sign + digits.len(),
        )[k] == digits[k] by {
            assert(text[sign + k] == s.subrange(pos, pos + length)[sign + k]);
        }
    }
    lemma_decimal_digits_value(s, pos + sign, magnitude);
    assert(is_digit(s[pos + sign]));
    if n < 0 {
        assert(text[0] == s.subrange(pos, pos + length)[0]);
        assert(s[pos] == MINUS);
    } else {
        assert(s[pos] != MINUS);
    }
    assert forall|k: int| pos + sign <= k < pos + sign + digits.len() implies in_class(
        Class::Digit,
        #[trigger] s[k],
    ) by {
        assert(is_digit(s[k]));
    }
    lemma_run_length(s, pos + sign, digits.len(), Class::Digit);
}

} // verus!
