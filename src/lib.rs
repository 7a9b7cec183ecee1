//! An evaluator for a small Forth: a lexer, a compiler with definitions
//! resolved when they are made, a dictionary, and a stack machine that asks
//! its host for floating-point arithmetic and output.

pub mod builtin;
pub mod compiler;
pub mod error;
pub mod forth;
pub mod laws;
pub mod lexer;
pub mod state;
pub mod token;

pub use builtin::{Action, Arith, ForthBuiltin, Output};
pub use error::ForthError;
pub use forth::{Forth, Instr, Pending, Step};
pub use lexer::lex;
pub use state::State;
pub use token::{Lexeme, Op, Token};
