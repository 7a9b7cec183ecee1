use vstd::prelude::*;

use crate::builtin::ForthBuiltin;

verus! {

/// One case-folded lexeme of a line, with the value of the number it spells,
/// if it spells one. Reading a number is float parsing, which the host does.
#[derive(Debug, Clone, PartialEq)]
pub struct Lexeme {
    pub text: String,
    pub number: Option<u64>,
}

/// A top-level token of a compiled line: a literal, or a word that is
/// resolved when the line runs.
#[derive(Debug, Clone, PartialEq)]
pub enum Token {
    Number(u64),
    Word(String),
}

/// A resolved operation, as definition bodies hold them: never a bare name.
#[derive(Debug, Clone, Copy, PartialEq, Eq, Structural)]
pub enum Op {
    Push(u64),
    Apply(ForthBuiltin),
}

} // verus!
