use vstd::prelude::*;

verus! {

/// Why an evaluation stopped before the end of its line.
#[derive(Debug, Clone, PartialEq, Eq)]
pub enum ForthError {
    /// `/`, `mod` or `/mod` with a zero divisor.
    DivisionByZero,
    /// An operation needed more values than the stack holds.
    StackUnderflow,
    /// A word that is neither defined nor built in.
    UnknownWord(String),
    /// A malformed definition.
    InvalidWord(String),
    /// A definition opened with `:` and never closed with `;`.
    Unterminated,
    /// `bye` or `quit`: the session should end.
    UserQuit,
}

} // verus!
