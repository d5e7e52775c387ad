//! Errors of the static analysis of types.
use crate::typing::{type_text, Type};
use vstd::prelude::*;
use vstd::string::StringExecFns;

verus! {

/// Why a program is not well typed.
#[derive(Debug)]
pub enum TypeError {
    MissingVariable { name: String },
    MismatchedTypes { expected: Type, got: Type },
}

/// The message of a type error.
pub open spec fn type_error_text(e: TypeError) -> Seq<char> {
    match e {
        TypeError::MissingVariable { name } => seq!['v', 'a', 'r', 'i', 'a', 'b', 'l', 'e', ' ']
            + name@ + seq![' ', 'n', 'o', 't', ' ', 'f', 'o', 'u', 'n', 'd'],
        TypeError::MismatchedTypes { expected, got } => seq![
            'e',
            'x',
            'p',
            'e',
            'c',
            't',
            'e',
            'd',
            ' ',
            't',
            'y',
            'p',
            'e',
            ' ',
        ] + type_text(expected@) + seq![',', ' ', 'g', 'o', 't', ' '] + type_text(got@),
    }
}

impl TypeError {
    /// The message of the error.
    pub fn to_display_string(&self) -> (s: String)
        ensures
            s@ == type_error_text(*self),
    {
        proof {
            reveal_strlit("variable ");
            reveal_strlit(" not found");
            reveal_strlit("expected type ");
            reveal_strlit(", got ");
        }
        match self {
            Self::MissingVariable { name } => {
                let mut s = "variable ".to_owned();
                s.append(name.as_str());
                s.append(" not found");
                s
            },
            Self::MismatchedTypes { expected, got } => {
                let mut s = "expected type ".to_owned();
                s.append(expected.to_display_string().as_str());
                s.append(", got ");
                s.append(got.to_display_string().as_str());
                s
            },
        }
    }
}

} // verus!
