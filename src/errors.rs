//! The errors the front end and the generators report.

use vstd::prelude::*;
use crate::text::string_of;

verus! {

/// An object, field or type name that fails the name grammar.
#[derive(Debug, Clone)]
pub struct NameError {
    pub message: String,
}

pub open spec fn name_error_text(name: Seq<char>) -> Seq<char> {
    name + " is not a valid obj name."@
}

impl NameError {
    pub fn new(message: String) -> (r: Self)
        ensures
            r.message@ == message@,
    {
        Self { message }
    }

    /// The error for the rejected name `name`.
    pub fn for_name(name: &str) -> (r: Self)
        ensures
            r.message@ == name_error_text(name@),
    {
        let mut message = String::from_str(name);
        message.append(" is not a valid obj name.");
        Self { message }
    }

    pub fn for_chars(name: &Vec<char>) -> (r: Self)
        ensures
            r.message@ == name_error_text(name@),
    {
        let s = string_of(name);
        Self::for_name(s.as_str())
    }
}

/// What is wrong with a body line that fails the declaration grammar.
#[derive(Debug, Clone)]
pub enum DeclarationFault {
    /// A token that fits no role at its position.
    UnexpectedToken(String),
    NoType,
    NoName,
    /// Both `const` and `mut` on the named field.
    ConstAndMut(String),
}

/// A body line that fails the declaration grammar, with the line itself.
#[derive(Debug, Clone)]
pub struct DeclarationError {
    pub line: String,
    pub fault: DeclarationFault,
}

/// Why a declaration line was rejected.
#[derive(Debug, Clone)]
pub enum ParseError {
    Name(NameError),
    Declaration(DeclarationError),
}

/// A generator was handed an object it cannot emit (an `UNDECIDED` one).
#[derive(Debug, Clone)]
pub struct GenerateError {
    pub message: String,
}

pub open spec fn fault_text(f: DeclarationFault) -> Seq<char> {
    match f {
        DeclarationFault::UnexpectedToken(t) => "Unexpected token: "@ + t@,
        DeclarationFault::NoType => "No type specified"@,
        DeclarationFault::NoName => "No variable name specified"@,
        DeclarationFault::ConstAndMut(n) => "Const Error: variable "@ + n@
            + " cannot be const and mut simultaneously!"@,
    }
}

impl DeclarationFault {
    /// The human-readable description of the fault.
    pub fn message(&self) -> (r: String)
        ensures
            r@ == fault_text(*self),
    {
        match self {
            DeclarationFault::UnexpectedToken(t) => {
                let mut m = String::from_str("Unexpected token: ");
                m.append(t.as_str());
                m
            },
            DeclarationFault::NoType => String::from_str("No type specified"),
            DeclarationFault::NoName => String::from_str("No variable name specified"),
            DeclarationFault::ConstAndMut(n) => {
                let mut m = String::from_str("Const Error: variable ");
                m.append(n.as_str());
                m.append(" cannot be const and mut simultaneously!");
                m
            },
        }
    }
}

impl GenerateError {
    pub fn undecided() -> (r: Self)
        ensures
            r.message@ == "Cannot generate code for UNDECIDED object type"@,
    {
        GenerateError { message: String::from_str("Cannot generate code for UNDECIDED object type") }
    }
}

} // verus!
