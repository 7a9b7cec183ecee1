use vstd::prelude::*;

use crate::builtin::{builtin_named, ForthBuiltin};
use crate::error::ForthError;
use crate::state::State;
use crate::token::{Lexeme, Op, Token};

verus! {

/// The operations that a lexeme inside a definition stands for, resolved now:
/// a number, the current body of a defined word, or a builtin.
pub open spec fn resolve(words: Map<Seq<char>, Seq<Op>>, lx: Lexeme) -> Result<Seq<Op>, ForthError> {
    match lx.number {
        Some(v) => Ok(seq![Op::Push(v)]),
        None => if words.contains_key(lx.text@) {
            Ok(words[lx.text@])
        } else {
            match builtin_named(lx.text@) {
                Some(b) => Ok(seq![Op::Apply(b)]),
                None => Err(ForthError::UnknownWord(lx.text)),
            }
        },
    }
}

/// The body that a sequence of lexemes resolves to, or the first failure.
pub open spec fn resolve_all(words: Map<Seq<char>, Seq<Op>>, lxs: Seq<Lexeme>) -> Result<
    Seq<Op>,
    ForthError,
>
    decreases lxs.len(),
{
    if lxs.len() == 0 {
        Ok(Seq::empty())
    } else {
        match resolve_all(words, lxs.drop_last()) {
            Ok(front) => match resolve(words, lxs.last()) {
                Ok(ops) => Ok(front + ops),
                Err(e) => Err(e),
            },
            Err(e) => Err(e),
        }
    }
}

/// A closed definition block: the name (its first lexeme, which must not be a
/// number) and the resolved body. `close` is the `;` that ended it.
pub open spec fn close_block(words: Map<Seq<char>, Seq<Op>>, block: Seq<Lexeme>, close: Lexeme) -> Result<
    (Seq<char>, Seq<Op>),
    ForthError,
> {
    if block.len() == 0 {
        Err(ForthError::InvalidWord(close.text))
    } else if block[0].number is Some {
        Err(ForthError::InvalidWord(block[0].text))
    } else {
        match resolve_all(words, block.drop_first()) {
            Ok(body) => Ok((block[0].text@, body)),
            Err(e) => Err(e),
        }
    }
}

/// The top-level token of a lexeme outside any definition.
pub open spec fn token_of(lx: Lexeme) -> Token {
    match lx.number {
        Some(v) => Token::Number(v),
        None => Token::Word(lx.text),
    }
}

/// Compiles `lxs` from position `i` on, with the dictionary `words`, the
/// top-level tokens `out` so far and, inside a definition, the lexemes
/// buffered since its `:`. Gives the dictionary after the definitions that
/// were closed, and the top-level tokens or the failure.
pub open spec fn compile_from(
    words: Map<Seq<char>, Seq<Op>>,
    lxs: Seq<Lexeme>,
    i: int,
    out: Seq<Token>,
    block: Option<Seq<Lexeme>>,
) -> (Map<Seq<char>, Seq<Op>>, Result<Seq<Token>, ForthError>)
    decreases lxs.len() - i,
{
    if i < 0 || i >= lxs.len() {
        if block is Some {
            (words, Err(ForthError::Unterminated))
        } else {
            (words, Ok(out))
        }
    } else {
        let lx = lxs[i];
        if lx.text@ == ":"@ {
            let buffered = match block {
                Some(b) => b,
                None => Seq::empty(),
            };
            compile_from(words, lxs, i + 1, out, Some(buffered))
        } else if lx.text@ == ";"@ {
            let buffered = match block {
                Some(b) => b,
                None => Seq::empty(),
            };
            match close_block(words, buffered, lx) {
                Ok((name, body)) => compile_from(words.insert(name, body), lxs, i + 1, out, None),
                Err(e) => (words, Err(e)),
            }
        } else {
            match block {
                Some(b) => compile_from(words, lxs, i + 1, out, Some(b.push(lx))),
                None => compile_from(words, lxs, i + 1, out.push(token_of(lx)), None),
            }
        }
    }
}

/// What compiling a whole line does: the new dictionary, and the tokens to run.
pub open spec fn compile(words: Map<Seq<char>, Seq<Op>>, lxs: Seq<Lexeme>) -> (
    Map<Seq<char>, Seq<Op>>,
    Result<Seq<Token>, ForthError>,
) {
    compile_from(words, lxs, 0, Seq::empty(), None)
}

/// The lexemes at the given positions.
pub open spec fn picked(lxs: Seq<Lexeme>, at: Seq<usize>) -> Seq<Lexeme> {
    at.map_values(|j: usize| lxs[j as int])
}

proof fn lemma_resolve_all_err(words: Map<Seq<char>, Seq<Op>>, s: Seq<Lexeme>, m: int)
    requires
        0 <= m <= s.len(),
        resolve_all(words, s.subrange(0, m)) is Err,
    ensures
        resolve_all(words, s) == resolve_all(words, s.subrange(0, m)),
    decreases s.len(),
{
    if m == s.len() {
        assert(s.subrange(0, m) =~= s);
    } else {
        assert(s.drop_last().subrange(0, m) =~= s.subrange(0, m));
        lemma_resolve_all_err(words, s.drop_last(), m);
    }
}

impl State {
    /// Resolves, against the dictionary as it is now, the lexemes of `lxs` at
    /// the positions `at[from..]`, into one body.
    fn resolve_body(&self, lxs: &Vec<Lexeme>, at: &Vec<usize>, from: usize) -> (r: Result<
        Vec<Op>,
        ForthError,
    >)
        requires
            from <= at@.len(),
            forall|k: int| 0 <= k < at@.len() ==> #[trigger] at@[k] < lxs@.len(),
        ensures
            match r {
                Ok(body) => resolve_all(
                    self@.words,
                    picked(lxs@, at@).subrange(from as int, at@.len() as int),
                ) == Ok::<Seq<Op>, ForthError>(body@),
                Err(e) => resolve_all(
                    self@.words,
                    picked(lxs@, at@).subrange(from as int, at@.len() as int),
                ) == Err::<Seq<Op>, ForthError>(e),
            },
    {
        let ghost all = picked(lxs@, at@);
        let ghost whole = all.subrange(from as int, at@.len() as int);
        let mut body: Vec<Op> = Vec::new();
        let mut k = from;
        assert(all.subrange(from as int, from as int) =~= Seq::<Lexeme>::empty());
        while k < at.len()
            invariant
                from <= k <= at@.len(),
                all == picked(lxs@, at@),
                whole == all.subrange(from as int, at@.len() as int),
                forall|q: int| 0 <= q < at@.len() ==> #[trigger] at@[q] < lxs@.len(),
                resolve_all(self@.words, all.subrange(from as int, k as int)) == Ok::<
                    Seq<Op>,
                    ForthError,
                >(body@),
            decreases at@.len() - k,
        {
            let ghost part = all.subrange(from as int, k + 1);
            let ghost front = body@;
            assert(part.drop_last() =~= all.subrange(from as int, k as int));
            assert(part.last() == lxs@[at@[k as int] as int]);
            let lx = &lxs[at[k]];
            match lx.number {
                Some(v) => {
                    body.push(Op::Push(v));
                    assert(body@ =~= front + seq![Op::Push(v)]);
                },
                None => match self.lookup(lx.text.as_str()) {
                    Some(ops) => {
                        let mut j: usize = 0;
                        while j < ops.len()
                            invariant
                                j <= ops@.len(),
                                body@ == front + ops@.subrange(0, j as int),
                            decreases ops@.len() - j,
                        {
                            body.push(ops[j]);
                            assert(body@ =~= front + ops@.subrange(0, j + 1));
                            j = j + 1;
                        }
                        assert(ops@.subrange(0, ops@.len() as int) =~= ops@);
                    },
                    None => match ForthBuiltin::named(lx.text.as_str()) {
                        Some(b) => {
                            body.push(Op::Apply(b));
                            assert(body@ =~= front + seq![Op::Apply(b)]);
                        },
                        None => {
                            proof {
                                assert(whole.subrange(0, k + 1 - from) =~= part);
                                lemma_resolve_all_err(self@.words, whole, k + 1 - from);
                            }
                            return Err(ForthError::UnknownWord(lx.text.clone()));
                        },
                    },
                },
            }
            k = k + 1;
        }
        Ok(body)
    }

    /// Compiles a line of lexemes: installs each definition block as it
    /// closes, with its body resolved against the dictionary of that moment,
    /// and gives the top-level tokens. The stack is not touched.
    pub fn tokenize(&mut self, input: &Vec<Lexeme>) -> (r: Result<Vec<Token>, ForthError>)
        ensures
            final(self)@.stack == old(self)@.stack,
            final(self)@.words == compile(old(self)@.words, input@).0,
            match r {
                Ok(t) => compile(old(self)@.words, input@).1 == Ok::<Seq<Token>, ForthError>(t@),
                Err(e) => compile(old(self)@.words, input@).1 == Err::<Seq<Token>, ForthError>(e),
            },
    {
        let mut tokens: Vec<Token> = Vec::new();
        let mut block: Vec<usize> = Vec::new();
        let mut capturing = false;
        let mut i: usize = 0;
        while i < input.len()
            invariant
                i <= input@.len(),
                self@.stack == old(self)@.stack,
                !capturing ==> block@.len() == 0,
                forall|k: int| 0 <= k < block@.len() ==> #[trigger] block@[k] < input@.len(),
                compile_from(
                    self@.words,
                    input@,
                    i as int,
                    tokens@,
                    if capturing {
                        Some(picked(input@, block@))
                    } else {
                        None
                    },
                ) == compile(old(self)@.words, input@),
            decreases input@.len() - i,
        {
            let lx = &input[i];
            if crate::builtin::same_text(lx.text.as_str(), ":") {
                if !capturing {
                    assert(picked(input@, block@) =~= Seq::<Lexeme>::empty());
                }
                capturing = true;
            } else if crate::builtin::same_text(lx.text.as_str(), ";") {
                if block.len() == 0 {
                    assert(picked(input@, block@) =~= Seq::<Lexeme>::empty());
                    return Err(ForthError::InvalidWord(lx.text.clone()));
                }
                let first = &input[block[0]];
                assert(picked(input@, block@)[0] == *first);
                if first.number.is_some() {
                    return Err(ForthError::InvalidWord(first.text.clone()));
                }
                assert(picked(input@, block@).drop_first() =~= picked(input@, block@).subrange(
                    1,
                    block@.len() as int,
                ));
                match self.resolve_body(input, &block, 1) {
                    Ok(body) => {
                        self.define_word(first.text.clone(), body);
                        block = Vec::new();
                        capturing = false;
                    },
                    Err(e) => {
                        return Err(e);
                    },
                }
            } else if capturing {
                let ghost before = picked(input@, block@);
                block.push(i);
                assert(picked(input@, block@) =~= before.push(input@[i as int]));
            } else {
                let t = match lx.number {
                    Some(v) => Token::Number(v),
                    None => Token::Word(lx.text.clone()),
                };
                tokens.push(t);
            }
            i = i + 1;
        }
        if capturing {
            Err(ForthError::Unterminated)
        } else {
            Ok(tokens)
        }
    }
}

} // verus!
