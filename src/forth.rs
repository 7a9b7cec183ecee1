use vstd::prelude::*;

use crate::builtin::{builtin_named, effect, Action, Arith, ForthBuiltin, Output};
use crate::compiler::compile;
use crate::error::ForthError;
use crate::state::State;
use crate::token::{Lexeme, Op, Token};

verus! {

/// One instruction of a running line.
#[derive(Debug, Clone, PartialEq)]
pub enum Instr {
    /// An operation; `true` when it is a top-level token of the line, whose
    /// produced value is the line's result.
    Run(Op, bool),
    /// A call of a defined word begins: the call produces no value.
    Enter,
    /// A word that names nothing.
    Missing(String),
}

/// What the session waits for before it can go on.
#[derive(Debug, Clone, Copy, PartialEq, Eq)]
pub enum Pending {
    /// Nothing: the last line ran to its end or failed.
    Idle,
    /// The value of the computation asked for; for `/mod`, the operands of
    /// the division still to ask for after it.
    Value(Option<(u64, u64)>),
    /// The host's word that it wrote what was asked.
    Write,
}

/// How a run stopped.
#[derive(Debug, Clone, PartialEq)]
pub enum Status {
    Finished,
    Failed(ForthError),
    /// The host is to compute `a op b`; for `/mod`, then the division of the pair.
    Compute(Arith, u64, u64, Option<(u64, u64)>),
    Write(Output),
}

/// What a session hands its host.
#[derive(Debug, PartialEq)]
pub enum Step {
    /// The line is over: its result, the last value that a top-level token
    /// produced, or why it stopped.
    Done(Result<Option<u64>, ForthError>),
    /// Compute `a op b` on the doubles that the bits stand for, and hand the
    /// bits of the outcome to `supply`.
    Compute(Arith, u64, u64),
    /// Write this out, then call `proceed`.
    Write(Output),
}

/// Where a run stopped: the stack, the instruction, the result so far, and why.
pub struct Halt {
    pub stack: Seq<u64>,
    pub pc: int,
    pub result: Option<u64>,
    pub status: Status,
}

/// The instructions that running a top-level token takes, with the
/// dictionary `words`: a number pushes itself; a defined word runs its body;
/// a builtin runs itself; any other word fails.
pub open spec fn expand_token(words: Map<Seq<char>, Seq<Op>>, t: Token) -> Seq<Instr> {
    match t {
        Token::Number(v) => seq![Instr::Run(Op::Push(v), true)],
        Token::Word(w) => if words.contains_key(w@) {
            seq![Instr::Enter] + words[w@].map_values(|op: Op| Instr::Run(op, false))
        } else {
            match builtin_named(w@) {
                Some(b) => seq![Instr::Run(Op::Apply(b), true)],
                None => seq![Instr::Missing(w)],
            }
        },
    }
}

/// The instructions of a sequence of top-level tokens.
pub open spec fn expand(words: Map<Seq<char>, Seq<Op>>, ts: Seq<Token>) -> Seq<Instr>
    decreases ts.len(),
{
    if ts.len() == 0 {
        Seq::empty()
    } else {
        expand(words, ts.drop_last()) + expand_token(words, ts.last())
    }
}

pub open spec fn is_top(i: Instr) -> bool {
    match i {
        Instr::Run(_, top) => top,
        _ => false,
    }
}

/// Runs `prog` from `pc` on `stack`, with `result` the value produced so far,
/// until the end, a failure, or something that only the host can do.
pub open spec fn run(prog: Seq<Instr>, stack: Seq<u64>, pc: int, result: Option<u64>) -> Halt
    decreases prog.len() - pc,
{
    if pc < 0 || pc >= prog.len() {
        Halt { stack, pc, result, status: Status::Finished }
    } else {
        match prog[pc] {
            Instr::Enter => run(prog, stack, pc + 1, None),
            Instr::Missing(w) => Halt {
                stack,
                pc,
                result,
                status: Status::Failed(ForthError::UnknownWord(w)),
            },
            Instr::Run(Op::Push(v), top) => run(
                prog,
                stack.push(v),
                pc + 1,
                if top {
                    Some(v)
                } else {
                    result
                },
            ),
            Instr::Run(Op::Apply(b), top) => {
                let (s, r) = effect(b, stack);
                match r {
                    Err(e) => Halt { stack: s, pc, result, status: Status::Failed(e) },
                    Ok(Action::Done) => run(
                        prog,
                        s,
                        pc + 1,
                        if top {
                            None
                        } else {
                            result
                        },
                    ),
                    Ok(Action::Compute(op, x, y)) => Halt {
                        stack: s,
                        pc,
                        result,
                        status: Status::Compute(op, x, y, None),
                    },
                    Ok(Action::DivMod(x, y)) => Halt {
                        stack: s,
                        pc,
                        result,
                        status: Status::Compute(Arith::Remainder, x, y, Some((x, y))),
                    },
                    Ok(Action::Write(o)) => Halt { stack: s, pc, result, status: Status::Write(o) },
                }
            },
        }
    }
}

/// What a session holds: its stack and dictionary, the instructions of the
/// line it runs, where it stands in them, the result so far, and what it
/// waits for.
pub struct Session {
    pub stack: Seq<u64>,
    pub words: Map<Seq<char>, Seq<Op>>,
    pub program: Seq<Instr>,
    pub pc: int,
    pub result: Option<u64>,
    pub pending: Pending,
}

/// A session that waits for something stands at an instruction of its line.
pub open spec fn session_inv(m: Session) -> bool {
    &&& 0 <= m.pc <= m.program.len()
    &&& !(m.pending is Idle) ==> m.pc < m.program.len()
}

/// The session stands where the run stopped.
pub open spec fn stands_at(m: Session, h: Halt) -> bool {
    &&& m.stack == h.stack
    &&& m.pc == h.pc
    &&& m.result == h.result
    &&& m.pending == pending_of(h.status)
}

/// Goes on after the host handed back `v` for the computation that `m` asked:
/// `v` is pushed; after the remainder of `/mod` its quotient is asked, else
/// the run goes on, and a top-level operation has produced `v`.
pub open spec fn resume_value(m: Session, v: u64) -> Halt {
    match m.pending {
        Pending::Value(Some((x, y))) => Halt {
            stack: m.stack.push(v),
            pc: m.pc,
            result: m.result,
            status: Status::Compute(Arith::Divide, x, y, None),
        },
        _ => run(
            m.program,
            m.stack.push(v),
            m.pc + 1,
            if is_top(m.program[m.pc]) {
                Some(v)
            } else {
                m.result
            },
        ),
    }
}

/// Goes on after the host wrote what `m` asked; a write produces no value.
pub open spec fn resume_write(m: Session) -> Halt {
    run(
        m.program,
        m.stack,
        m.pc + 1,
        if is_top(m.program[m.pc]) {
            None
        } else {
            m.result
        },
    )
}

pub open spec fn step_of(h: Halt) -> Step {
    match h.status {
        Status::Finished => Step::Done(Ok(h.result)),
        Status::Failed(e) => Step::Done(Err(e)),
        Status::Compute(op, x, y, _) => Step::Compute(op, x, y),
        Status::Write(o) => Step::Write(o),
    }
}

pub open spec fn pending_of(s: Status) -> Pending {
    match s {
        Status::Compute(_, _, _, then) => Pending::Value(then),
        Status::Write(_) => Pending::Write,
        _ => Pending::Idle,
    }
}

/// A run stops inside the program unless it finished.
pub proof fn lemma_run_stops_inside(prog: Seq<Instr>, stack: Seq<u64>, pc: int, result: Option<u64>)
    requires
        0 <= pc,
    ensures
        !(run(prog, stack, pc, result).status is Finished) ==> 0 <= run(prog, stack, pc, result).pc
            < prog.len(),
    decreases prog.len() - pc,
{
    if pc < prog.len() {
        match prog[pc] {
            Instr::Enter => lemma_run_stops_inside(prog, stack, pc + 1, None),
            Instr::Missing(_) => {},
            Instr::Run(Op::Push(v), top) => lemma_run_stops_inside(
                prog,
                stack.push(v),
                pc + 1,
                if top {
                    Some(v)
                } else {
                    result
                },
            ),
            Instr::Run(Op::Apply(b), top) => {
                let (s, r) = effect(b, stack);
                lemma_run_stops_inside(
                    prog,
                    s,
                    pc + 1,
                    if top {
                        None
                    } else {
                        result
                    },
                );
            },
        }
    }
}

fn missing_name(i: &Instr) -> (r: Option<String>)
    ensures
        match *i {
            Instr::Missing(w) => r == Some(w),
            _ => r is None,
        },
{
    match i {
        Instr::Missing(w) => Some(w.clone()),
        _ => None,
    }
}

impl Token {
    /// Evaluates this top-level token as far as the dictionary decides it:
    /// appends the instructions that running it takes.
    pub fn eval(&self, state: &State, program: &mut Vec<Instr>)
        ensures
            final(program)@ == old(program)@ + expand_token(state@.words, *self),
    {
        match self {
            Token::Number(v) => {
                program.push(Instr::Run(Op::Push(*v), true));
                assert(program@ =~= old(program)@ + expand_token(state@.words, *self));
            },
            Token::Word(w) => match state.lookup(w.as_str()) {
                Some(body) => {
                    let ghost start = program@.push(Instr::Enter);
                    program.push(Instr::Enter);
                    let mut j: usize = 0;
                    while j < body.len()
                        invariant
                            j <= body@.len(),
                            program@ == start + body@.subrange(0, j as int).map_values(
                                |op: Op| Instr::Run(op, false),
                            ),
                        decreases body@.len() - j,
                    {
                        program.push(Instr::Run(body[j], false));
                        assert(body@.subrange(0, j + 1).map_values(|op: Op| Instr::Run(op, false))
                            =~= body@.subrange(0, j as int).map_values(
                            |op: Op| Instr::Run(op, false),
                        ).push(Instr::Run(body@[j as int], false)));
                        j = j + 1;
                    }
                    assert(body@.subrange(0, body@.len() as int) =~= body@);
                    assert(program@ =~= old(program)@ + expand_token(state@.words, *self));
                },
                None => match ForthBuiltin::named(w.as_str()) {
                    Some(b) => {
                        program.push(Instr::Run(Op::Apply(b), true));
                        assert(program@ =~= old(program)@ + expand_token(state@.words, *self));
                    },
                    None => {
                        program.push(Instr::Missing(w.clone()));
                        assert(program@ =~= old(program)@ + expand_token(state@.words, *self));
                    },
                },
            },
        }
    }
}

/// An interactive session: a stack of doubles, held as their bit patterns,
/// and a dictionary of defined words. A line is run with `eval`; where it
/// needs arithmetic or output, the session hands a `Step` to its host and
/// goes on when the host calls `supply` or `proceed`.
pub struct Forth {
    state: State,
    program: Vec<Instr>,
    pc: usize,
    result: Option<u64>,
    pending: Pending,
}

impl View for Forth {
    type V = Session;

    closed spec fn view(&self) -> Session {
        Session {
            stack: self.state@.stack,
            words: self.state@.words,
            program: self.program@,
            pc: self.pc as int,
            result: self.result,
            pending: self.pending,
        }
    }
}

impl Forth {
    /// A session with an empty stack and an empty dictionary.
    pub fn new() -> (r: Forth)
        ensures
            r@.stack == Seq::<u64>::empty(),
            r@.words == Map::<Seq<char>, Seq<Op>>::empty(),
            r@.program == Seq::<Instr>::empty(),
            r@.pc == 0,
            r@.result is None,
            r@.pending == Pending::Idle,
            session_inv(r@),
    {
        Forth {
            state: State::new(),
            program: Vec::new(),
            pc: 0,
            result: None,
            pending: Pending::Idle,
        }
    }

    pub fn prompt(&self) -> (r: String)
        ensures
            r@ == "> "@,
    {
        "> ".to_owned()
    }

    /// The stack, bottom first.
    pub fn stack(&self) -> (r: &Vec<u64>)
        ensures
            r@ == self@.stack,
    {
        self.state.stack()
    }

    /// What the session waits for.
    pub fn pending(&self) -> (r: Pending)
        ensures
            r == self@.pending,
    {
        self.pending
    }

    /// Compiles a line into the dictionary; see `State::tokenize`.
    pub fn tokenize(&mut self, input: &Vec<Lexeme>) -> (r: Result<Vec<Token>, ForthError>)
        requires
            session_inv(old(self)@),
        ensures
            final(self)@ == (Session { words: compile(old(self)@.words, input@).0, ..old(self)@ }),
            match r {
                Ok(t) => compile(old(self)@.words, input@).1 == Ok::<Seq<Token>, ForthError>(t@),
                Err(e) => compile(old(self)@.words, input@).1 == Err::<Seq<Token>, ForthError>(e),
            },
    {
        self.state.tokenize(input)
    }

    /// Runs the current line from where it stands until the end, a failure,
    /// or a request to the host.
    fn go(&mut self) -> (r: Step)
        requires
            old(self)@.pc <= old(self)@.program.len(),
        ensures
            final(self)@.words == old(self)@.words,
            final(self)@.program == old(self)@.program,
            final(self)@.pc <= final(self)@.program.len(),
            stands_at(
                final(self)@,
                run(old(self)@.program, old(self)@.stack, old(self)@.pc, old(self)@.result),
            ),
            r == step_of(
                run(old(self)@.program, old(self)@.stack, old(self)@.pc, old(self)@.result),
            ),
    {
        let ghost h = run(old(self)@.program, old(self)@.stack, old(self)@.pc, old(self)@.result);
        self.pending = Pending::Idle;
        while self.pc < self.program.len()
            invariant
                self.pending == Pending::Idle,
                h == run(old(self)@.program, old(self)@.stack, old(self)@.pc, old(self)@.result),
                self.pc <= self.program@.len(),
                self@.words == old(self)@.words,
                self@.program == old(self)@.program,
                run(self@.program, self@.stack, self@.pc, self@.result) == h,
            decreases self.program@.len() - self.pc,
        {
            let pc = self.pc;
            if let Some(name) = missing_name(&self.program[pc]) {
                return Step::Done(Err(ForthError::UnknownWord(name)));
            }
            let next: Option<(Op, bool)> = match &self.program[pc] {
                Instr::Run(op, top) => Some((*op, *top)),
                _ => None,
            };
            match next {
                None => {
                    self.result = None;
                    self.pc = pc + 1;
                },
                Some((Op::Push(v), top)) => {
                    self.state.push(v);
                    if top {
                        self.result = Some(v);
                    }
                    self.pc = pc + 1;
                },
                Some((Op::Apply(b), top)) => match b.eval(&mut self.state) {
                    Err(e) => {
                        return Step::Done(Err(e));
                    },
                    Ok(Action::Done) => {
                        if top {
                            self.result = None;
                        }
                        self.pc = pc + 1;
                    },
                    Ok(Action::Compute(op, x, y)) => {
                        self.pending = Pending::Value(None);
                        return Step::Compute(op, x, y);
                    },
                    Ok(Action::DivMod(x, y)) => {
                        self.pending = Pending::Value(Some((x, y)));
                        return Step::Compute(Arith::Remainder, x, y);
                    },
                    Ok(Action::Write(o)) => {
                        self.pending = Pending::Write;
                        return Step::Write(o);
                    },
                },
            }
        }
        Step::Done(Ok(self.result))
    }

    /// Runs compiled top-level tokens: each word is resolved against the
    /// dictionary as it is now, then the line runs until the end, a failure
    /// or a request to the host.
    pub fn run(&mut self, tokens: &Vec<Token>) -> (r: Step)
        requires
            session_inv(old(self)@),
        ensures
            final(self)@.words == old(self)@.words,
            final(self)@.program == expand(old(self)@.words, tokens@),
            stands_at(final(self)@, run(expand(old(self)@.words, tokens@), old(self)@.stack, 0, None)),
            r == step_of(run(expand(old(self)@.words, tokens@), old(self)@.stack, 0, None)),
            session_inv(final(self)@),
    {
        let mut program: Vec<Instr> = Vec::new();
        let mut i: usize = 0;
        while i < tokens.len()
            invariant
                i <= tokens@.len(),
                program@ == expand(self@.words, tokens@.subrange(0, i as int)),
            decreases tokens@.len() - i,
        {
            tokens[i].eval(&self.state, &mut program);
            assert(tokens@.subrange(0, i + 1).drop_last() =~= tokens@.subrange(0, i as int));
            i = i + 1;
        }
        assert(tokens@.subrange(0, tokens@.len() as int) =~= tokens@);
        self.program = program;
        self.pc = 0;
        self.result = None;
        let r = self.go();
        proof {
            lemma_run_stops_inside(self@.program, old(self)@.stack, 0, None);
        }
        r
    }

    /// Runs a line of lexemes: compiles it, installing its definitions, then
    /// runs its top-level tokens. A line that does not compile leaves the
    /// stack as it was.
    pub fn eval(&mut self, input: &Vec<Lexeme>) -> (r: Step)
        requires
            session_inv(old(self)@),
        ensures
            final(self)@.words == compile(old(self)@.words, input@).0,
            session_inv(final(self)@),
            match compile(old(self)@.words, input@).1 {
                Ok(ts) => {
                    let h = run(expand(final(self)@.words, ts), old(self)@.stack, 0, None);
                    &&& final(self)@.program == expand(final(self)@.words, ts)
                    &&& stands_at(final(self)@, h)
                    &&& r == step_of(h)
                },
                Err(e) => {
                    &&& final(self)@.stack == old(self)@.stack
                    &&& final(self)@.program == Seq::<Instr>::empty()
                    &&& final(self)@.pc == 0
                    &&& final(self)@.result is None
                    &&& final(self)@.pending == Pending::Idle
                    &&& r == Step::Done(Err(e))
                },
            },
    {
        match self.state.tokenize(input) {
            Ok(tokens) => self.run(&tokens),
            Err(e) => {
                self.program = Vec::new();
                self.pc = 0;
                self.result = None;
                self.pending = Pending::Idle;
                Step::Done(Err(e))
            },
        }
    }

    /// Hands the session the bits of the value it asked to compute, and goes on.
    pub fn supply(&mut self, value: u64) -> (r: Step)
        requires
            session_inv(old(self)@),
            old(self)@.pending is Value,
        ensures
            final(self)@.words == old(self)@.words,
            final(self)@.program == old(self)@.program,
            stands_at(final(self)@, resume_value(old(self)@, value)),
            r == step_of(resume_value(old(self)@, value)),
            session_inv(final(self)@),
    {
        assert(self@.pc < self@.program.len());
        self.state.push(value);
        match self.pending {
            Pending::Value(Some((x, y))) => {
                self.pending = Pending::Value(None);
                Step::Compute(Arith::Divide, x, y)
            },
            _ => {
                let top = match &self.program[self.pc] {
                    Instr::Run(_, t) => *t,
                    _ => false,
                };
                if top {
                    self.result = Some(value);
                }
                let n = self.program.len();
                assert(self.pc < n);
                self.pc = self.pc + 1;
                let r = self.go();
                proof {
                    lemma_run_stops_inside(
                        self@.program,
                        old(self)@.stack.push(value),
                        old(self)@.pc + 1,
                        if top {
                            Some(value)
                        } else {
                            old(self)@.result
                        },
                    );
                }
                r
            },
        }
    }

    /// Tells the session that the host wrote what it asked, and goes on.
    pub fn proceed(&mut self) -> (r: Step)
        requires
            session_inv(old(self)@),
            old(self)@.pending is Write,
        ensures
            final(self)@.words == old(self)@.words,
            final(self)@.program == old(self)@.program,
            stands_at(final(self)@, resume_write(old(self)@)),
            r == step_of(resume_write(old(self)@)),
            session_inv(final(self)@),
    {
        let top = match &self.program[self.pc] {
            Instr::Run(_, t) => *t,
            _ => false,
        };
        if top {
            self.result = None;
        }
        let n = self.program.len();
        assert(self.pc < n);
        self.pc = self.pc + 1;
        let r = self.go();
        proof {
            lemma_run_stops_inside(
                self@.program,
                old(self)@.stack,
                old(self)@.pc + 1,
                if top {
                    None
                } else {
                    old(self)@.result
                },
            );
        }
        r
    }
}

} // verus!
