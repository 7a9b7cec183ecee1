use vstd::prelude::*;

use crate::error::ForthError;
use crate::state::State;

verus! {

/// The primitive words, recognised by name whatever the dictionary holds.
#[derive(Debug, Clone, Copy, PartialEq, Eq, Structural)]
pub enum ForthBuiltin {
    Add,
    Subtract,
    Multiply,
    Divide,
    Bye,
    CR,
    Display,
    Drop,
    Dup,
    TwoDrop,
    TwoDup,
    Emit,
    Mod,
    SlashMod,
    Over,
    TwoOver,
    Rot,
    Show,
    Space,
    Spaces,
    Swap,
    TwoSwap,
}

/// A floating-point operation that the host computes on two stack values.
///
/// Stack values are the bit patterns of IEEE-754 doubles; the library moves
/// them, and only the host does arithmetic on them.
#[derive(Debug, Clone, Copy, PartialEq, Eq, Structural)]
pub enum Arith {
    Add,
    Subtract,
    Multiply,
    Divide,
    Remainder,
}

/// Something the host writes out.
#[derive(Debug, Clone, Copy, PartialEq, Eq, Structural)]
pub enum Output {
    /// The value as a character (`emit`).
    Char(u64),
    /// The value as a number (`.`).
    Number(u64),
    /// As many spaces as the value says (`spaces`).
    Spaces(u64),
    /// A line break (`cr`).
    Newline,
    /// One space (`space`).
    Space,
    /// The whole stack, which the operation leaves as it is (`.s`).
    Stack,
}

/// What remains to be done once a builtin has checked and moved the stack.
#[derive(Debug, Clone, Copy, PartialEq, Eq, Structural)]
pub enum Action {
    /// Nothing: the stack already holds the outcome.
    Done,
    /// The host computes `a op b`; that value is produced.
    Compute(Arith, u64, u64),
    /// The host computes `a mod b`, which is pushed, then `a / b`, which is produced.
    DivMod(u64, u64),
    /// The host writes something.
    Write(Output),
}

/// A double is zero, of either sign, when every bit but the sign is clear.
pub open spec fn is_zero(bits: u64) -> bool {
    bits & 0x7fff_ffff_ffff_ffffu64 == 0
}

fn bits_are_zero(bits: u64) -> (r: bool)
    ensures
        r == is_zero(bits),
{
    bits & 0x7fff_ffff_ffff_ffffu64 == 0
}

/// The builtin that a (case-folded) name denotes.
pub open spec fn builtin_named(s: Seq<char>) -> Option<ForthBuiltin> {
    if s == "+"@ {
        Some(ForthBuiltin::Add)
    } else if s == "-"@ {
        Some(ForthBuiltin::Subtract)
    } else if s == "*"@ {
        Some(ForthBuiltin::Multiply)
    } else if s == "/"@ {
        Some(ForthBuiltin::Divide)
    } else if s == "."@ {
        Some(ForthBuiltin::Display)
    } else if s == "bye"@ || s == "quit"@ {
        Some(ForthBuiltin::Bye)
    } else if s == "cr"@ {
        Some(ForthBuiltin::CR)
    } else if s == "dup"@ {
        Some(ForthBuiltin::Dup)
    } else if s == "2dup"@ {
        Some(ForthBuiltin::TwoDup)
    } else if s == "drop"@ {
        Some(ForthBuiltin::Drop)
    } else if s == "2drop"@ {
        Some(ForthBuiltin::TwoDrop)
    } else if s == "emit"@ {
        Some(ForthBuiltin::Emit)
    } else if s == "/mod"@ {
        Some(ForthBuiltin::SlashMod)
    } else if s == "mod"@ {
        Some(ForthBuiltin::Mod)
    } else if s == "over"@ {
        Some(ForthBuiltin::Over)
    } else if s == "2over"@ {
        Some(ForthBuiltin::TwoOver)
    } else if s == "rot"@ {
        Some(ForthBuiltin::Rot)
    } else if s == ".s"@ {
        Some(ForthBuiltin::Show)
    } else if s == "space"@ {
        Some(ForthBuiltin::Space)
    } else if s == "spaces"@ {
        Some(ForthBuiltin::Spaces)
    } else if s == "swap"@ {
        Some(ForthBuiltin::Swap)
    } else if s == "2swap"@ {
        Some(ForthBuiltin::TwoSwap)
    } else {
        None
    }
}

/// Whether two strings hold the same characters.
pub fn same_text(s: &str, t: &str) -> (r: bool)
    ensures
        r == (s@ == t@),
{
    let n = s.unicode_len();
    if n != t.unicode_len() {
        return false;
    }
    let mut i: usize = 0;
    while i < n
        invariant
            n == s@.len(),
            n == t@.len(),
            i <= n,
            s@.subrange(0, i as int) == t@.subrange(0, i as int),
        decreases n - i,
    {
        if s.get_char(i) != t.get_char(i) {
            assert(s@[i as int] != t@[i as int]);
            return false;
        }
        assert(s@.subrange(0, i + 1) =~= s@.subrange(0, i as int).push(s@[i as int]));
        assert(t@.subrange(0, i + 1) =~= t@.subrange(0, i as int).push(t@[i as int]));
        i = i + 1;
    }
    assert(s@ =~= s@.subrange(0, n as int));
    assert(t@ =~= t@.subrange(0, n as int));
    true
}

/// The arithmetic that an arithmetic builtin asks of the host.
pub open spec fn arith_of(b: ForthBuiltin) -> Arith {
    match b {
        ForthBuiltin::Subtract => Arith::Subtract,
        ForthBuiltin::Multiply => Arith::Multiply,
        ForthBuiltin::Divide => Arith::Divide,
        ForthBuiltin::Mod => Arith::Remainder,
        _ => Arith::Add,
    }
}

/// What a builtin does to a stack (bottom first): the stack it leaves, and
/// either what is left for the host to do or why it failed. A failing
/// builtin leaves the stack as it found it.
#[verifier::opaque]
pub open spec fn effect(b: ForthBuiltin, s: Seq<u64>) -> (Seq<u64>, Result<Action, ForthError>) {
    let n = s.len();
    let underflow = (s, Err(ForthError::StackUnderflow));
    match b {
        ForthBuiltin::Add | ForthBuiltin::Subtract | ForthBuiltin::Multiply => {
            if n < 2 {
                underflow
            } else {
                (s.subrange(0, n - 2), Ok(Action::Compute(arith_of(b), s[n - 2], s[n - 1])))
            }
        },
        ForthBuiltin::Divide | ForthBuiltin::Mod => {
            if n < 2 {
                underflow
            } else if is_zero(s[n - 1]) {
                (s, Err(ForthError::DivisionByZero))
            } else {
                (s.subrange(0, n - 2), Ok(Action::Compute(arith_of(b), s[n - 2], s[n - 1])))
            }
        },
        ForthBuiltin::SlashMod => {
            if n < 2 {
                underflow
            } else if is_zero(s[n - 1]) {
                (s, Err(ForthError::DivisionByZero))
            } else {
                (s.subrange(0, n - 2), Ok(Action::DivMod(s[n - 2], s[n - 1])))
            }
        },
        ForthBuiltin::Bye => (s, Err(ForthError::UserQuit)),
        ForthBuiltin::CR => (s, Ok(Action::Write(Output::Newline))),
        ForthBuiltin::Space => (s, Ok(Action::Write(Output::Space))),
        ForthBuiltin::Show => (s, Ok(Action::Write(Output::Stack))),
        ForthBuiltin::Display => {
            if n < 1 {
                underflow
            } else {
                (s.drop_last(), Ok(Action::Write(Output::Number(s[n - 1]))))
            }
        },
        ForthBuiltin::Emit => {
            if n < 1 {
                underflow
            } else {
                (s.drop_last(), Ok(Action::Write(Output::Char(s[n - 1]))))
            }
        },
        ForthBuiltin::Spaces => {
            if n < 1 {
                underflow
            } else {
                (s.drop_last(), Ok(Action::Write(Output::Spaces(s[n - 1]))))
            }
        },
        ForthBuiltin::Drop => {
            if n < 1 {
                underflow
            } else {
                (s.drop_last(), Ok(Action::Done))
            }
        },
        ForthBuiltin::Dup => {
            if n < 1 {
                underflow
            } else {
                (s.push(s[n - 1]), Ok(Action::Done))
            }
        },
        ForthBuiltin::TwoDrop => {
            if n < 2 {
                underflow
            } else {
                (s.subrange(0, n - 2), Ok(Action::Done))
            }
        },
        ForthBuiltin::TwoDup => {
            if n < 2 {
                underflow
            } else {
                (s + seq![s[n - 2], s[n - 1]], Ok(Action::Done))
            }
        },
        ForthBuiltin::Over => {
            if n < 2 {
                underflow
            } else {
                (s.push(s[n - 2]), Ok(Action::Done))
            }
        },
        ForthBuiltin::TwoOver => {
            if n < 4 {
                underflow
            } else {
                (s + seq![s[n - 4], s[n - 3]], Ok(Action::Done))
            }
        },
        ForthBuiltin::Rot => {
            if n < 3 {
                underflow
            } else {
                (s.subrange(0, n - 3) + seq![s[n - 2], s[n - 1], s[n - 3]], Ok(Action::Done))
            }
        },
        ForthBuiltin::Swap => {
            if n < 2 {
                underflow
            } else {
                (s.subrange(0, n - 2) + seq![s[n - 1], s[n - 2]], Ok(Action::Done))
            }
        },
        ForthBuiltin::TwoSwap => {
            if n < 4 {
                underflow
            } else {
                (
                    s.subrange(0, n - 4) + seq![s[n - 2], s[n - 1], s[n - 4], s[n - 3]],
                    Ok(Action::Done),
                )
            }
        },
    }
}

impl ForthBuiltin {
    /// Checks the stack for this builtin's operands and moves them as the
    /// builtin says; what is left for the host is returned. On failure the
    /// stack is left untouched.
    pub fn eval(&self, state: &mut State) -> (r: Result<Action, ForthError>)
        ensures
            (final(state)@.stack, r) == effect(*self, old(state)@.stack),
            final(state)@.words == old(state)@.words,
    {
        reveal(effect);
        let ghost s = state@.stack;
        let n = state.depth();
        let needed: usize = match self {
            ForthBuiltin::Bye | ForthBuiltin::CR | ForthBuiltin::Space | ForthBuiltin::Show => 0,
            ForthBuiltin::Display | ForthBuiltin::Emit | ForthBuiltin::Spaces | ForthBuiltin::Drop
            | ForthBuiltin::Dup => 1,
            ForthBuiltin::Rot => 3,
            ForthBuiltin::TwoOver | ForthBuiltin::TwoSwap => 4,
            _ => 2,
        };
        if n < needed {
            return Err(ForthError::StackUnderflow);
        }
        match self {
            ForthBuiltin::Add | ForthBuiltin::Subtract | ForthBuiltin::Multiply
            | ForthBuiltin::Divide | ForthBuiltin::Mod | ForthBuiltin::SlashMod => {
                let b = state.peek(0);
                let a = state.peek(1);
                let divides = match self {
                    ForthBuiltin::Divide | ForthBuiltin::Mod | ForthBuiltin::SlashMod => true,
                    _ => false,
                };
                if divides && bits_are_zero(b) {
                    return Err(ForthError::DivisionByZero);
                }
                state.pop();
                state.pop();
                assert(state@.stack =~= s.subrange(0, n - 2));
                let action = match self {
                    ForthBuiltin::Add => Action::Compute(Arith::Add, a, b),
                    ForthBuiltin::Subtract => Action::Compute(Arith::Subtract, a, b),
                    ForthBuiltin::Multiply => Action::Compute(Arith::Multiply, a, b),
                    ForthBuiltin::Divide => Action::Compute(Arith::Divide, a, b),
                    ForthBuiltin::Mod => Action::Compute(Arith::Remainder, a, b),
                    _ => Action::DivMod(a, b),
                };
                Ok(action)
            },
            ForthBuiltin::Bye => Err(ForthError::UserQuit),
            ForthBuiltin::CR => Ok(Action::Write(Output::Newline)),
            ForthBuiltin::Space => Ok(Action::Write(Output::Space)),
            ForthBuiltin::Show => Ok(Action::Write(Output::Stack)),
            ForthBuiltin::Display => {
                let v = state.pop();
                Ok(Action::Write(Output::Number(v)))
            },
            ForthBuiltin::Emit => {
                let v = state.pop();
                Ok(Action::Write(Output::Char(v)))
            },
            ForthBuiltin::Spaces => {
                let v = state.pop();
                Ok(Action::Write(Output::Spaces(v)))
            },
            ForthBuiltin::Drop => {
                state.pop();
                Ok(Action::Done)
            },
            ForthBuiltin::Dup => {
                let v = state.peek(0);
                state.push(v);
                Ok(Action::Done)
            },
            ForthBuiltin::TwoDrop => {
                state.pop();
                state.pop();
                assert(state@.stack =~= s.subrange(0, n - 2));
                Ok(Action::Done)
            },
            ForthBuiltin::TwoDup => {
                let b = state.peek(0);
                let a = state.peek(1);
                state.push(a);
                state.push(b);
                assert(state@.stack =~= s + seq![a, b]);
                Ok(Action::Done)
            },
            ForthBuiltin::Over => {
                let a = state.peek(1);
                state.push(a);
                Ok(Action::Done)
            },
            ForthBuiltin::TwoOver => {
                let b = state.peek(2);
                let a = state.peek(3);
                state.push(a);
                state.push(b);
                assert(state@.stack =~= s + seq![a, b]);
                Ok(Action::Done)
            },
            ForthBuiltin::Rot => {
                let c = state.pop();
                let b = state.pop();
                let a = state.pop();
                state.push(b);
                state.push(c);
                state.push(a);
                assert(state@.stack =~= s.subrange(0, n - 3) + seq![b, c, a]);
                Ok(Action::Done)
            },
            ForthBuiltin::Swap => {
                let b = state.pop();
                let a = state.pop();
                state.push(b);
                state.push(a);
                assert(state@.stack =~= s.subrange(0, n - 2) + seq![b, a]);
                Ok(Action::Done)
            },
            ForthBuiltin::TwoSwap => {
                let d = state.pop();
                let c = state.pop();
                let b = state.pop();
                let a = state.pop();
                state.push(c);
                state.push(d);
                state.push(a);
                state.push(b);
                assert(state@.stack =~= s.subrange(0, n - 4) + seq![c, d, a, b]);
                Ok(Action::Done)
            },
        }
    }

    /// The builtin that a (case-folded) name denotes, if any.
    pub fn named(s: &str) -> (r: Option<ForthBuiltin>)
        ensures
            r == builtin_named(s@),
    {
        if same_text(s, "+") {
            Some(ForthBuiltin::Add)
        } else if same_text(s, "-") {
            Some(ForthBuiltin::Subtract)
        } else if same_text(s, "*") {
            Some(ForthBuiltin::Multiply)
        } else if same_text(s, "/") {
            Some(ForthBuiltin::Divide)
        } else if same_text(s, ".") {
            Some(ForthBuiltin::Display)
        } else if same_text(s, "bye") || same_text(s, "quit") {
            Some(ForthBuiltin::Bye)
        } else if same_text(s, "cr") {
            Some(ForthBuiltin::CR)
        } else if same_text(s, "dup") {
            Some(ForthBuiltin::Dup)
        } else if same_text(s, "2dup") {
            Some(ForthBuiltin::TwoDup)
        } else if same_text(s, "drop") {
            Some(ForthBuiltin::Drop)
        } else if same_text(s, "2drop") {
            Some(ForthBuiltin::TwoDrop)
        } else if same_text(s, "emit") {
            Some(ForthBuiltin::Emit)
        } else if same_text(s, "/mod") {
            Some(ForthBuiltin::SlashMod)
        } else if same_text(s, "mod") {
            Some(ForthBuiltin::Mod)
        } else if same_text(s, "over") {
            Some(ForthBuiltin::Over)
        } else if same_text(s, "2over") {
            Some(ForthBuiltin::TwoOver)
        } else if same_text(s, "rot") {
            Some(ForthBuiltin::Rot)
        } else if same_text(s, ".s") {
            Some(ForthBuiltin::Show)
        } else if same_text(s, "space") {
            Some(ForthBuiltin::Space)
        } else if same_text(s, "spaces") {
            Some(ForthBuiltin::Spaces)
        } else if same_text(s, "swap") {
            Some(ForthBuiltin::Swap)
        } else if same_text(s, "2swap") {
            Some(ForthBuiltin::TwoSwap)
        } else {
            None
        }
    }
}

} // verus!
