//! The built-in functions of the language: their names and signatures, the
//! same for every way of running a program.

use crate::node::AbstractType;
use crate::text::bytes_are;
use vstd::prelude::*;
use vstd::string::StringSliceAdditionalSpecFns;

verus! {

/// A built-in function.
#[derive(Debug, Clone, Copy, PartialEq, Eq, Structural)]
pub enum Builtin {
    PrintInt,
    PrintBool,
    PrintStr,
    StrEq,
    StrLen,
    StrConcat,
    AssertIntEq,
    AssertBoolEq,
    AssertStrEq,
    Panic,
}

/// The number of built-in functions.
pub const BUILTIN_COUNT: usize = 10;

impl Builtin {
    /// The name under which a program calls the built-in, as bytes.
    pub open spec fn name(self) -> Seq<u8> {
        match self {
            Builtin::PrintInt => "print_int".spec_bytes(),
            Builtin::PrintBool => "print_bool".spec_bytes(),
            Builtin::PrintStr => "print_str".spec_bytes(),
            Builtin::StrEq => "str_eq".spec_bytes(),
            Builtin::StrLen => "str_len".spec_bytes(),
            Builtin::StrConcat => "str_concat".spec_bytes(),
            Builtin::AssertIntEq => "assert_int_eq".spec_bytes(),
            Builtin::AssertBoolEq => "assert_bool_eq".spec_bytes(),
            Builtin::AssertStrEq => "assert_str_eq".spec_bytes(),
            Builtin::Panic => "panic".spec_bytes(),
        }
    }

    /// The types of the parameters, in order.
    pub open spec fn params(self) -> Seq<AbstractType> {
        match self {
            Builtin::PrintInt => seq![AbstractType::Integer],
            Builtin::PrintBool => seq![AbstractType::Boolean],
            Builtin::PrintStr => seq![AbstractType::String],
            Builtin::StrEq => seq![AbstractType::String, AbstractType::String],
            Builtin::StrLen => seq![AbstractType::String],
            Builtin::StrConcat => seq![AbstractType::String, AbstractType::String],
            Builtin::AssertIntEq => seq![AbstractType::Integer, AbstractType::Integer],
            Builtin::AssertBoolEq => seq![AbstractType::Boolean, AbstractType::Boolean],
            Builtin::AssertStrEq => seq![AbstractType::String, AbstractType::String],
            Builtin::Panic => seq![],
        }
    }

    /// The type of the result; `Void` where the built-in returns nothing.
    pub open spec fn result(self) -> AbstractType {
        match self {
            Builtin::StrEq => AbstractType::Boolean,
            Builtin::StrLen => AbstractType::Integer,
            Builtin::StrConcat => AbstractType::String,
            _ => AbstractType::Void,
        }
    }

    /// The position of the built-in in the table, from zero.
    pub open spec fn index(self) -> nat {
        match self {
            Builtin::PrintInt => 0,
            Builtin::PrintBool => 1,
            Builtin::PrintStr => 2,
            Builtin::StrEq => 3,
            Builtin::StrLen => 4,
            Builtin::StrConcat => 5,
            Builtin::AssertIntEq => 6,
            Builtin::AssertBoolEq => 7,
            Builtin::AssertStrEq => 8,
            Builtin::Panic => 9,
        }
    }

    /// The name of the symbol that stands for the built-in at run time.
    pub fn symbol(self) -> (r: &'static str)
        ensures
            r.spec_bytes() == self.name(),
    {
        match self {
            Builtin::PrintInt => "print_int",
            Builtin::PrintBool => "print_bool",
            Builtin::PrintStr => "print_str",
            Builtin::StrEq => "str_eq",
            Builtin::StrLen => "str_len",
            Builtin::StrConcat => "str_concat",
            Builtin::AssertIntEq => "assert_int_eq",
            Builtin::AssertBoolEq => "assert_bool_eq",
            Builtin::AssertStrEq => "assert_str_eq",
            Builtin::Panic => "panic",
        }
    }

    pub fn parameters(self) -> (r: Vec<AbstractType>)
        ensures
            r@ == self.params(),
    {
        let r = match self {
            Builtin::PrintInt => vec![AbstractType::Integer],
            Builtin::PrintBool => vec![AbstractType::Boolean],
            Builtin::PrintStr => vec![AbstractType::String],
            Builtin::StrEq => vec![AbstractType::String, AbstractType::String],
            Builtin::StrLen => vec![AbstractType::String],
            Builtin::StrConcat => vec![AbstractType::String, AbstractType::String],
            Builtin::AssertIntEq => vec![AbstractType::Integer, AbstractType::Integer],
            Builtin::AssertBoolEq => vec![AbstractType::Boolean, AbstractType::Boolean],
            Builtin::AssertStrEq => vec![AbstractType::String, AbstractType::String],
            Builtin::Panic => Vec::new(),
        };
        assert(r@ =~= self.params());
        r
    }

    pub fn return_type(self) -> (r: AbstractType)
        ensures
            r == self.result(),
    {
        match self {
            Builtin::StrEq => AbstractType::Boolean,
            Builtin::StrLen => AbstractType::Integer,
            Builtin::StrConcat => AbstractType::String,
            _ => AbstractType::Void,
        }
    }

    /// The built-in at a position of the table.
    pub fn at(index: usize) -> (r: Builtin)
        requires
            index < BUILTIN_COUNT,
        ensures
            r.index() == index,
    {
        if index == 0 {
            Builtin::PrintInt
        } else if index == 1 {
            Builtin::PrintBool
        } else if index == 2 {
            Builtin::PrintStr
        } else if index == 3 {
            Builtin::StrEq
        } else if index == 4 {
            Builtin::StrLen
        } else if index == 5 {
            Builtin::StrConcat
        } else if index == 6 {
            Builtin::AssertIntEq
        } else if index == 7 {
            Builtin::AssertBoolEq
        } else if index == 8 {
            Builtin::AssertStrEq
        } else {
            Builtin::Panic
        }
    }
}

/// The built-in that a name stands for, if any.
pub open spec fn builtin_named(name: Seq<u8>) -> Option<Builtin> {
    if name == Builtin::PrintInt.name() {
        Some(Builtin::PrintInt)
    } else if name == Builtin::PrintBool.name() {
        Some(Builtin::PrintBool)
    } else if name == Builtin::PrintStr.name() {
        Some(Builtin::PrintStr)
    } else if name == Builtin::StrEq.name() {
        Some(Builtin::StrEq)
    } else if name == Builtin::StrLen.name() {
        Some(Builtin::StrLen)
    } else if name == Builtin::StrConcat.name() {
        Some(Builtin::StrConcat)
    } else if name == Builtin::AssertIntEq.name() {
        Some(Builtin::AssertIntEq)
    } else if name == Builtin::AssertBoolEq.name() {
        Some(Builtin::AssertBoolEq)
    } else if name == Builtin::AssertStrEq.name() {
        Some(Builtin::AssertStrEq)
    } else if name == Builtin::Panic.name() {
        Some(Builtin::Panic)
    } else {
        None
    }
}

/// Looks a name up in the table of built-ins.
pub fn find_builtin(name: &Vec<u8>) -> (r: Option<Builtin>)
    ensures
        r == builtin_named(name@),
{
    if bytes_are(name, "print_int") {
        Some(Builtin::PrintInt)
    } else if bytes_are(name, "print_bool") {
        Some(Builtin::PrintBool)
    } else if bytes_are(name, "print_str") {
        Some(Builtin::PrintStr)
    } else if bytes_are(name, "str_eq") {
        Some(Builtin::StrEq)
    } else if bytes_are(name, "str_len") {
        Some(Builtin::StrLen)
    } else if bytes_are(name, "str_concat") {
        Some(Builtin::StrConcat)
    } else if bytes_are(name, "assert_int_eq") {
        Some(Builtin::AssertIntEq)
    } else if bytes_are(name, "assert_bool_eq") {
        Some(Builtin::AssertBoolEq)
    } else if bytes_are(name, "assert_str_eq") {
        Some(Builtin::AssertStrEq)
    } else if bytes_are(name, "panic") {
        Some(Builtin::Panic)
    } else {
        None
    }
}

} // verus!
