use vstd::prelude::*;

use crate::builtin::{builtin_named, effect, is_zero, Arith, ForthBuiltin};
use crate::compiler::{close_block, compile, compile_from, resolve, resolve_all, token_of};
use crate::error::ForthError;
use crate::lexer::{folded, lexemes, split_spaces, trimmed};
use crate::forth::{expand, pending_of, resume_value, run, Halt, Instr, Session, Status};
use crate::token::{Lexeme, Op, Token};

verus! {

/// A lexeme that the host read as the number `v`.
pub open spec fn literal(lx: Lexeme, v: u64) -> bool {
    &&& lx.number == Some(v)
    &&& lx.text@ != ":"@
    &&& lx.text@ != ";"@
}

/// A lexeme that is no number and spells `text`.
pub open spec fn spells(lx: Lexeme, text: Seq<char>) -> bool {
    &&& lx.number is None
    &&& lx.text@ == text
}

proof fn lemma_builtin_texts()
    ensures
        builtin_named("dup"@) == Some(ForthBuiltin::Dup),
        builtin_named("drop"@) == Some(ForthBuiltin::Drop),
        builtin_named("+"@) == Some(ForthBuiltin::Add),
        builtin_named("-"@) == Some(ForthBuiltin::Subtract),
        builtin_named("/"@) == Some(ForthBuiltin::Divide),
        "dup"@ != ":"@ && "dup"@ != ";"@,
        "drop"@ != ":"@ && "drop"@ != ";"@,
        "+"@ != ":"@ && "+"@ != ";"@,
        "-"@ != ":"@ && "-"@ != ";"@,
        "/"@ != ":"@ && "/"@ != ";"@,
        ":"@ != ";"@,
{
    reveal_strlit("dup");
    reveal_strlit("drop");
    reveal_strlit("+");
    reveal_strlit("-");
    reveal_strlit("*");
    reveal_strlit("/");
    reveal_strlit(".");
    reveal_strlit("bye");
    reveal_strlit("quit");
    reveal_strlit("cr");
    reveal_strlit("2dup");
    reveal_strlit(":");
    reveal_strlit(";");
    assert("dup"@[0] == 'd' && "dup"@.len() == 3);
    assert("drop"@[0] == 'd' && "drop"@.len() == 4);
    assert("+"@[0] == '+' && "+"@.len() == 1);
    assert("-"@[0] == '-' && "-"@.len() == 1);
    assert("*"@[0] == '*' && "*"@.len() == 1);
    assert("/"@[0] == '/' && "/"@.len() == 1);
    assert("."@[0] == '.' && "."@.len() == 1);
    assert("bye"@[0] == 'b' && "bye"@.len() == 3);
    assert("quit"@[0] == 'q' && "quit"@.len() == 4);
    assert("cr"@[0] == 'c' && "cr"@.len() == 2);
    assert("2dup"@[0] == '2' && "2dup"@.len() == 4);
    assert(":"@[0] == ':' && ":"@.len() == 1);
    assert(";"@[0] == ';' && ";"@.len() == 1);
    assert("dup"@[1] != "drop"@[1]);
}

proof fn lemma_expand_concat(words: Map<Seq<char>, Seq<Op>>, a: Seq<Token>, b: Seq<Token>)
    ensures
        expand(words, a + b) == expand(words, a) + expand(words, b),
    decreases b.len(),
{
    if b.len() == 0 {
        assert(a + b =~= a);
        assert(expand(words, a) + expand(words, b) =~= expand(words, a));
    } else {
        lemma_expand_concat(words, a, b.drop_last());
        assert((a + b).drop_last() =~= a + b.drop_last());
        assert((a + b).last() == b.last());
        assert(expand(words, a + b) =~= expand(words, a) + expand(words, b));
    }
}

proof fn lemma_expand_one(words: Map<Seq<char>, Seq<Op>>, t: Token)
    ensures
        expand(words, seq![t]) == crate::forth::expand_token(words, t),
{
    assert(seq![t].drop_last() =~= Seq::<Token>::empty());
    assert(expand(words, Seq::<Token>::empty()) == Seq::<crate::forth::Instr>::empty());
    assert(expand(words, seq![t]) =~= crate::forth::expand_token(words, t));
}

/// No lexeme of the line opens or closes a definition.
pub open spec fn plain(lxs: Seq<Lexeme>) -> bool {
    forall|i: int| 0 <= i < lxs.len() ==> #[trigger] lxs[i].text@ != ":"@ && lxs[i].text@ != ";"@
}

proof fn lemma_compile_plain_from(
    words: Map<Seq<char>, Seq<Op>>,
    lxs: Seq<Lexeme>,
    i: int,
    out: Seq<Token>,
)
    requires
        plain(lxs),
        0 <= i <= lxs.len(),
    ensures
        compile_from(words, lxs, i, out, None) == (
            words,
            Ok::<Seq<Token>, ForthError>(out + lxs.subrange(i, lxs.len() as int).map_values(
                |lx: Lexeme| token_of(lx),
            )),
        ),
    decreases lxs.len() - i,
{
    if i == lxs.len() {
        assert(out + lxs.subrange(i, lxs.len() as int).map_values(|lx: Lexeme| token_of(lx)) =~= out);
    } else {
        lemma_compile_plain_from(words, lxs, i + 1, out.push(token_of(lxs[i])));
        assert(out.push(token_of(lxs[i])) + lxs.subrange(i + 1, lxs.len() as int).map_values(
            |lx: Lexeme| token_of(lx),
        ) =~= out + lxs.subrange(i, lxs.len() as int).map_values(|lx: Lexeme| token_of(lx)));
    }
}

/// A line with no definition leaves the dictionary alone and compiles to one
/// token per lexeme.
pub proof fn lemma_compile_plain(words: Map<Seq<char>, Seq<Op>>, lxs: Seq<Lexeme>)
    requires
        plain(lxs),
    ensures
        compile(words, lxs) == (
            words,
            Ok::<Seq<Token>, ForthError>(lxs.map_values(|lx: Lexeme| token_of(lx))),
        ),
{
    lemma_compile_plain_from(words, lxs, 0, Seq::empty());
    assert(Seq::<Token>::empty() + lxs.subrange(0, lxs.len() as int).map_values(
        |lx: Lexeme| token_of(lx),
    ) =~= lxs.map_values(|lx: Lexeme| token_of(lx)));
}

/// `1 dup drop` leaves the stack as `1` alone does, whatever the dictionary
/// holds but definitions of `dup` and `drop`.
pub proof fn law_dup_drop(
    words: Map<Seq<char>, Seq<Op>>,
    stack: Seq<u64>,
    one: Lexeme,
    v: u64,
    dup: Lexeme,
    drop: Lexeme,
)
    requires
        literal(one, v),
        spells(dup, "dup"@),
        spells(drop, "drop"@),
        !words.contains_key("dup"@),
        !words.contains_key("drop"@),
    ensures
        compile(words, seq![one, dup, drop]) == (
            words,
            Ok::<Seq<Token>, ForthError>(
                seq![Token::Number(v), Token::Word(dup.text), Token::Word(drop.text)],
            ),
        ),
        compile(words, seq![one]) == (words, Ok::<Seq<Token>, ForthError>(seq![Token::Number(v)])),
        run(
            expand(words, seq![Token::Number(v), Token::Word(dup.text), Token::Word(drop.text)]),
            stack,
            0,
            None,
        ).stack == run(expand(words, seq![Token::Number(v)]), stack, 0, None).stack,
        run(expand(words, seq![Token::Number(v)]), stack, 0, None).stack == stack.push(v),
        run(
            expand(words, seq![Token::Number(v), Token::Word(dup.text), Token::Word(drop.text)]),
            stack,
            0,
            None,
        ).status == Status::Finished,
{
    lemma_builtin_texts();
    reveal(effect);
    let lxs = seq![one, dup, drop];
    lemma_compile_plain(words, lxs);
    assert(lxs.map_values(|lx: Lexeme| token_of(lx)) =~= seq![
        Token::Number(v),
        Token::Word(dup.text),
        Token::Word(drop.text),
    ]);
    lemma_compile_plain(words, seq![one]);
    assert(seq![one].map_values(|lx: Lexeme| token_of(lx)) =~= seq![Token::Number(v)]);
    let ts = seq![Token::Number(v), Token::Word(dup.text), Token::Word(drop.text)];
    lemma_expand_one(words, Token::Number(v));
    lemma_expand_one(words, Token::Word(dup.text));
    lemma_expand_one(words, Token::Word(drop.text));
    lemma_expand_concat(words, seq![Token::Number(v)], seq![Token::Word(dup.text)]);
    assert(seq![Token::Number(v)] + seq![Token::Word(dup.text)] =~= seq![
        Token::Number(v),
        Token::Word(dup.text),
    ]);
    lemma_expand_concat(words, seq![Token::Number(v), Token::Word(dup.text)], seq![Token::Word(drop.text)]);
    assert(seq![Token::Number(v), Token::Word(dup.text)] + seq![Token::Word(drop.text)] =~= ts);
    let prog = expand(words, ts);
    assert(prog =~= seq![
        crate::forth::Instr::Run(Op::Push(v), true),
        crate::forth::Instr::Run(Op::Apply(ForthBuiltin::Dup), true),
        crate::forth::Instr::Run(Op::Apply(ForthBuiltin::Drop), true),
    ]);
    assert(stack.push(v).push(v).drop_last() =~= stack.push(v));
    reveal_with_fuel(run, 4);
}

proof fn lemma_expand_three(words: Map<Seq<char>, Seq<Op>>, x: Token, y: Token, z: Token)
    ensures
        expand(words, seq![x, y, z]) == crate::forth::expand_token(words, x)
            + crate::forth::expand_token(words, y) + crate::forth::expand_token(words, z),
{
    lemma_expand_one(words, x);
    lemma_expand_one(words, y);
    lemma_expand_one(words, z);
    lemma_expand_concat(words, seq![x], seq![y]);
    assert(seq![x] + seq![y] =~= seq![x, y]);
    lemma_expand_concat(words, seq![x, y], seq![z]);
    assert(seq![x, y] + seq![z] =~= seq![x, y, z]);
}

/// `a b +` asks the host for `a + b`, and `a b -` for `a - b`; the value the
/// host hands back is pushed and is the line's result. The dictionary must
/// not redefine the operator.
pub proof fn law_add_subtract(
    words: Map<Seq<char>, Seq<Op>>,
    stack: Seq<u64>,
    la: Lexeme,
    a: u64,
    lb: Lexeme,
    b: u64,
    lop: Lexeme,
    v: u64,
)
    requires
        literal(la, a),
        literal(lb, b),
        spells(lop, "+"@) || spells(lop, "-"@),
        !words.contains_key(lop.text@),
    ensures
        ({
            let ts = seq![Token::Number(a), Token::Number(b), Token::Word(lop.text)];
            let prog = expand(words, ts);
            let h = run(prog, stack, 0, None);
            let m = Session {
                stack: h.stack,
                words,
                program: prog,
                pc: h.pc,
                result: h.result,
                pending: pending_of(h.status),
            };
            &&& compile(words, seq![la, lb, lop]) == (words, Ok::<Seq<Token>, ForthError>(ts))
            &&& h.stack == stack
            &&& h.status == Status::Compute(
                if lop.text@ == "+"@ {
                    Arith::Add
                } else {
                    Arith::Subtract
                },
                a,
                b,
                None,
            )
            &&& resume_value(m, v) == (Halt {
                stack: stack.push(v),
                pc: 3,
                result: Some(v),
                status: Status::Finished,
            })
        }),
{
    lemma_builtin_texts();
    reveal(effect);
    let lxs = seq![la, lb, lop];
    lemma_compile_plain(words, lxs);
    let ts = seq![Token::Number(a), Token::Number(b), Token::Word(lop.text)];
    assert(lxs.map_values(|lx: Lexeme| token_of(lx)) =~= ts);
    lemma_expand_three(words, Token::Number(a), Token::Number(b), Token::Word(lop.text));
    let op = if lop.text@ == "+"@ {
        ForthBuiltin::Add
    } else {
        ForthBuiltin::Subtract
    };
    let prog = expand(words, ts);
    assert(prog =~= seq![
        Instr::Run(Op::Push(a), true),
        Instr::Run(Op::Push(b), true),
        Instr::Run(Op::Apply(op), true),
    ]);
    assert(stack.push(a).push(b).subrange(0, stack.len() as int) =~= stack);
    reveal_with_fuel(run, 4);
}

/// `a b /` with `b` zero fails with a division by zero; the two literals
/// stay pushed. The dictionary must not redefine `/`.
pub proof fn law_divide_by_zero(
    words: Map<Seq<char>, Seq<Op>>,
    stack: Seq<u64>,
    la: Lexeme,
    a: u64,
    lb: Lexeme,
    b: u64,
    slash: Lexeme,
)
    requires
        literal(la, a),
        literal(lb, b),
        is_zero(b),
        spells(slash, "/"@),
        !words.contains_key("/"@),
    ensures
        ({
            let ts = seq![Token::Number(a), Token::Number(b), Token::Word(slash.text)];
            let h = run(expand(words, ts), stack, 0, None);
            &&& compile(words, seq![la, lb, slash]) == (words, Ok::<Seq<Token>, ForthError>(ts))
            &&& h.stack == stack.push(a).push(b)
            &&& h.status == Status::Failed(ForthError::DivisionByZero)
        }),
{
    lemma_builtin_texts();
    let lxs = seq![la, lb, slash];
    lemma_compile_plain(words, lxs);
    let ts = seq![Token::Number(a), Token::Number(b), Token::Word(slash.text)];
    assert(lxs.map_values(|lx: Lexeme| token_of(lx)) =~= ts);
    lemma_expand_three(words, Token::Number(a), Token::Number(b), Token::Word(slash.text));
    let prog = expand(words, ts);
    assert(prog =~= seq![
        Instr::Run(Op::Push(a), true),
        Instr::Run(Op::Push(b), true),
        Instr::Run(Op::Apply(ForthBuiltin::Divide), true),
    ]);
    let s2 = stack.push(a).push(b);
    assert(effect(ForthBuiltin::Divide, s2) == (s2, Err::<crate::builtin::Action, ForthError>(
        ForthError::DivisionByZero,
    ))) by {
        reveal(effect);
    }
    assert(run(prog, s2, 2, Some(b)).status == Status::Failed(ForthError::DivisionByZero));
    assert(run(prog, stack.push(a), 1, Some(a)) == run(prog, s2, 2, Some(b)));
    assert(run(prog, stack, 0, None) == run(prog, stack.push(a), 1, Some(a)));
}

proof fn lemma_capture(
    words: Map<Seq<char>, Seq<Op>>,
    lxs: Seq<Lexeme>,
    i: int,
    j: int,
    out: Seq<Token>,
    buf: Seq<Lexeme>,
)
    requires
        0 <= i <= j <= lxs.len(),
        forall|k: int| i <= k < j ==> #[trigger] lxs[k].text@ != ":"@ && lxs[k].text@ != ";"@,
    ensures
        compile_from(words, lxs, i, out, Some(buf)) == compile_from(
            words,
            lxs,
            j,
            out,
            Some(buf + lxs.subrange(i, j)),
        ),
    decreases j - i,
{
    if i == j {
        assert(buf + lxs.subrange(i, j) =~= buf);
    } else {
        lemma_capture(words, lxs, i + 1, j, out, buf.push(lxs[i]));
        assert(buf.push(lxs[i]) + lxs.subrange(i + 1, j) =~= buf + lxs.subrange(i, j));
    }
}

/// A line `: name body ;` whose body resolves installs the resolved body
/// under the name, and runs nothing.
pub proof fn lemma_define_line(
    words: Map<Seq<char>, Seq<Op>>,
    colon: Lexeme,
    name: Lexeme,
    body: Seq<Lexeme>,
    semi: Lexeme,
    ops: Seq<Op>,
)
    requires
        spells(colon, ":"@),
        spells(semi, ";"@),
        name.number is None,
        name.text@ != ":"@ && name.text@ != ";"@,
        plain(body),
        resolve_all(words, body) == Ok::<Seq<Op>, ForthError>(ops),
    ensures
        compile(words, seq![colon, name] + body + seq![semi]) == (
            words.insert(name.text@, ops),
            Ok::<Seq<Token>, ForthError>(Seq::empty()),
        ),
{
    lemma_builtin_texts();
    let lxs = seq![colon, name] + body + seq![semi];
    let n = lxs.len() as int;
    assert(lxs[0] == colon);
    assert(lxs[n - 1] == semi);
    assert forall|k: int| 1 <= k < n - 1 implies #[trigger] lxs[k].text@ != ":"@ && lxs[k].text@
        != ";"@ by {
        if k >= 2 {
            assert(lxs[k] == body[k - 2]);
        }
    }
    lemma_capture(words, lxs, 1, n - 1, Seq::empty(), Seq::empty());
    let block = Seq::<Lexeme>::empty() + lxs.subrange(1, n - 1);
    assert(block =~= seq![name] + body);
    assert(block.drop_first() =~= body);
    assert(close_block(words, block, semi) == Ok::<(Seq<char>, Seq<Op>), ForthError>(
        (name.text@, ops),
    ));
    assert(compile_from(words.insert(name.text@, ops), lxs, n, Seq::empty(), None) == (
        words.insert(name.text@, ops),
        Ok::<Seq<Token>, ForthError>(Seq::empty()),
    ));
}

proof fn lemma_resolve_one(words: Map<Seq<char>, Seq<Op>>, lx: Lexeme)
    ensures
        resolve_all(words, seq![lx]) == resolve(words, lx),
{
    assert(seq![lx].drop_last() =~= Seq::<Lexeme>::empty());
    assert(resolve_all(words, Seq::<Lexeme>::empty()) == Ok::<Seq<Op>, ForthError>(Seq::empty()));
    match resolve(words, lx) {
        Ok(ops) => {
            assert(Seq::<Op>::empty() + ops =~= ops);
        },
        Err(_) => {},
    }
}

/// A name that can be defined: no number, and neither `:` nor `;`.
pub open spec fn name_lexeme(lx: Lexeme) -> bool {
    &&& lx.number is None
    &&& lx.text@ != ":"@
    &&& lx.text@ != ";"@
}

/// Snapshot: after `: foo x ;`, `: bar foo ;` and `: foo y ;`, the line
/// `bar foo` pushes `x` then `y`: `bar` keeps the `foo` it was defined with.
pub proof fn law_snapshot(
    words: Map<Seq<char>, Seq<Op>>,
    stack: Seq<u64>,
    colon: Lexeme,
    semi: Lexeme,
    foo: Lexeme,
    bar: Lexeme,
    lx: Lexeme,
    x: u64,
    ly: Lexeme,
    y: u64,
)
    requires
        spells(colon, ":"@),
        spells(semi, ";"@),
        name_lexeme(foo),
        name_lexeme(bar),
        foo.text@ != bar.text@,
        literal(lx, x),
        literal(ly, y),
    ensures
        ({
            let w1 = words.insert(foo.text@, seq![Op::Push(x)]);
            let w2 = w1.insert(bar.text@, seq![Op::Push(x)]);
            let w3 = w2.insert(foo.text@, seq![Op::Push(y)]);
            let ts = seq![Token::Word(bar.text), Token::Word(foo.text)];
            &&& compile(words, seq![colon, foo, lx, semi]) == (w1, Ok::<Seq<Token>, ForthError>(Seq::empty()))
            &&& compile(w1, seq![colon, bar, foo, semi]) == (w2, Ok::<Seq<Token>, ForthError>(Seq::empty()))
            &&& compile(w2, seq![colon, foo, ly, semi]) == (w3, Ok::<Seq<Token>, ForthError>(Seq::empty()))
            &&& compile(w3, seq![bar, foo]) == (w3, Ok::<Seq<Token>, ForthError>(ts))
            &&& run(expand(w3, ts), stack, 0, None) == (Halt {
                stack: stack.push(x).push(y),
                pc: 4,
                result: None,
                status: Status::Finished,
            })
        }),
{
    lemma_builtin_texts();
    let w1 = words.insert(foo.text@, seq![Op::Push(x)]);
    let w2 = w1.insert(bar.text@, seq![Op::Push(x)]);
    let w3 = w2.insert(foo.text@, seq![Op::Push(y)]);
    lemma_resolve_one(words, lx);
    assert(seq![colon, foo] + seq![lx] + seq![semi] =~= seq![colon, foo, lx, semi]);
    lemma_define_line(words, colon, foo, seq![lx], semi, seq![Op::Push(x)]);
    lemma_resolve_one(w1, foo);
    assert(seq![colon, bar] + seq![foo] + seq![semi] =~= seq![colon, bar, foo, semi]);
    lemma_define_line(w1, colon, bar, seq![foo], semi, seq![Op::Push(x)]);
    lemma_resolve_one(w2, ly);
    assert(seq![colon, foo] + seq![ly] + seq![semi] =~= seq![colon, foo, ly, semi]);
    lemma_define_line(w2, colon, foo, seq![ly], semi, seq![Op::Push(y)]);
    lemma_compile_plain(w3, seq![bar, foo]);
    let ts = seq![Token::Word(bar.text), Token::Word(foo.text)];
    assert(seq![bar, foo].map_values(|l: Lexeme| token_of(l)) =~= ts);
    lemma_expand_one(w3, Token::Word(bar.text));
    lemma_expand_one(w3, Token::Word(foo.text));
    lemma_expand_concat(w3, seq![Token::Word(bar.text)], seq![Token::Word(foo.text)]);
    assert(seq![Token::Word(bar.text)] + seq![Token::Word(foo.text)] =~= ts);
    assert(w3[bar.text@] == seq![Op::Push(x)]);
    assert(w3[foo.text@] == seq![Op::Push(y)]);
    let prog = expand(w3, ts);
    assert(prog =~= seq![
        Instr::Enter,
        Instr::Run(Op::Push(x), false),
        Instr::Enter,
        Instr::Run(Op::Push(y), false),
    ]);
    reveal_with_fuel(run, 5);
}

/// Self-reference: after `: foo t ;` and `: foo foo o + ;`, running `foo`
/// pushes `t` and `o` and asks the host for their sum, which it pushes: the
/// new `foo` runs the old one. The dictionary must not redefine `+`.
pub proof fn law_self_reference(
    words: Map<Seq<char>, Seq<Op>>,
    stack: Seq<u64>,
    colon: Lexeme,
    semi: Lexeme,
    foo: Lexeme,
    lt: Lexeme,
    t: u64,
    lo: Lexeme,
    o: u64,
    plus: Lexeme,
    v: u64,
)
    requires
        spells(colon, ":"@),
        spells(semi, ";"@),
        name_lexeme(foo),
        foo.text@ != "+"@,
        literal(lt, t),
        literal(lo, o),
        spells(plus, "+"@),
        !words.contains_key("+"@),
    ensures
        ({
            let w1 = words.insert(foo.text@, seq![Op::Push(t)]);
            let body = seq![Op::Push(t), Op::Push(o), Op::Apply(ForthBuiltin::Add)];
            let w2 = w1.insert(foo.text@, body);
            let ts = seq![Token::Word(foo.text)];
            let prog = expand(w2, ts);
            let h = run(prog, stack, 0, None);
            let m = Session {
                stack: h.stack,
                words: w2,
                program: prog,
                pc: h.pc,
                result: h.result,
                pending: pending_of(h.status),
            };
            &&& compile(words, seq![colon, foo, lt, semi]) == (w1, Ok::<Seq<Token>, ForthError>(Seq::empty()))
            &&& compile(w1, seq![colon, foo, foo, lo, plus, semi]) == (w2, Ok::<Seq<Token>, ForthError>(Seq::empty()))
            &&& compile(w2, seq![foo]) == (w2, Ok::<Seq<Token>, ForthError>(ts))
            &&& h.stack == stack
            &&& h.status == Status::Compute(Arith::Add, t, o, None)
            &&& resume_value(m, v) == (Halt {
                stack: stack.push(v),
                pc: 4,
                result: None,
                status: Status::Finished,
            })
        }),
{
    lemma_builtin_texts();
    let w1 = words.insert(foo.text@, seq![Op::Push(t)]);
    let body = seq![Op::Push(t), Op::Push(o), Op::Apply(ForthBuiltin::Add)];
    let w2 = w1.insert(foo.text@, body);
    lemma_resolve_one(words, lt);
    assert(seq![colon, foo] + seq![lt] + seq![semi] =~= seq![colon, foo, lt, semi]);
    lemma_define_line(words, colon, foo, seq![lt], semi, seq![Op::Push(t)]);
    let bl = seq![foo, lo, plus];
    assert(bl.drop_last().drop_last() =~= seq![foo]);
    assert(bl.drop_last() =~= seq![foo, lo]);
    lemma_resolve_one(w1, foo);
    assert(resolve_all(w1, seq![foo, lo]) == Ok::<Seq<Op>, ForthError>(seq![Op::Push(t)] + seq![Op::Push(o)]));
    assert(seq![Op::Push(t)] + seq![Op::Push(o)] + seq![Op::Apply(ForthBuiltin::Add)] =~= body);
    assert(resolve_all(w1, bl) == Ok::<Seq<Op>, ForthError>(body));
    assert forall|k: int| 0 <= k < bl.len() implies #[trigger] bl[k].text@ != ":"@ && bl[k].text@
        != ";"@ by {}
    assert(seq![colon, foo] + bl + seq![semi] =~= seq![colon, foo, foo, lo, plus, semi]);
    lemma_define_line(w1, colon, foo, bl, semi, body);
    lemma_compile_plain(w2, seq![foo]);
    let ts = seq![Token::Word(foo.text)];
    assert(seq![foo].map_values(|l: Lexeme| token_of(l)) =~= ts);
    lemma_expand_one(w2, Token::Word(foo.text));
    let prog = expand(w2, ts);
    assert(prog =~= seq![
        Instr::Enter,
        Instr::Run(Op::Push(t), false),
        Instr::Run(Op::Push(o), false),
        Instr::Run(Op::Apply(ForthBuiltin::Add), false),
    ]);
    let s2 = stack.push(t).push(o);
    assert(effect(ForthBuiltin::Add, s2) == (stack, Ok::<crate::builtin::Action, ForthError>(
        crate::builtin::Action::Compute(Arith::Add, t, o),
    ))) by {
        reveal(effect);
        assert(s2.subrange(0, stack.len() as int) =~= stack);
    }
    assert(run(prog, s2, 3, None).status == Status::Compute(Arith::Add, t, o, None));
    assert(run(prog, stack.push(t), 2, None) == run(prog, s2, 3, None));
    assert(run(prog, stack, 1, None) == run(prog, stack.push(t), 2, None));
    assert(run(prog, stack, 0, None) == run(prog, stack, 1, None));
    assert(run(prog, stack.push(v), 4, None).status == Status::Finished);
}

/// Case does not matter: two lines whose trimmed forms split into pieces
/// with the same case folds, one for one, have the same lexemes, and so
/// compile and run alike (`DUP`, `Dup` and `dup` are one word).
pub proof fn law_case_insensitive(l1: Seq<char>, l2: Seq<char>)
    requires
        (trimmed(l1).len() == 0) == (trimmed(l2).len() == 0),
        split_spaces(trimmed(l1)).len() == split_spaces(trimmed(l2)).len(),
        forall|i: int|
            0 <= i < split_spaces(trimmed(l1)).len() ==> folded(#[trigger] split_spaces(trimmed(l1))[i])
                == folded(split_spaces(trimmed(l2))[i]),
    ensures
        lexemes(l1) == lexemes(l2),
{
    assert(lexemes(l1) =~= lexemes(l2));
}

/// A builtin that fails leaves the stack exactly as it found it.
pub proof fn law_failure_is_atomic(b: ForthBuiltin, stack: Seq<u64>)
    ensures
        effect(b, stack).1 is Err ==> effect(b, stack).0 == stack,
{
    reveal(effect);
}

/// `dup` on an empty stack fails with a stack underflow and leaves the stack
/// empty, whatever the dictionary holds but a definition of `dup`.
pub proof fn law_dup_underflow(words: Map<Seq<char>, Seq<Op>>, dup: Lexeme)
    requires
        spells(dup, "dup"@),
        !words.contains_key("dup"@),
    ensures
        compile(words, seq![dup]) == (words, Ok::<Seq<Token>, ForthError>(seq![Token::Word(dup.text)])),
        run(expand(words, seq![Token::Word(dup.text)]), Seq::empty(), 0, None) == (Halt {
            stack: Seq::empty(),
            pc: 0,
            result: None,
            status: Status::Failed(ForthError::StackUnderflow),
        }),
{
    lemma_builtin_texts();
    reveal(effect);
    assert(compile(words, seq![dup]) == (words, Ok::<Seq<Token>, ForthError>(seq![Token::Word(dup.text)]))) by {
        reveal_with_fuel(crate::compiler::compile_from, 3);
        assert(seq![Token::Word(dup.text)] =~= Seq::<Token>::empty().push(Token::Word(dup.text)));
    }
    lemma_expand_one(words, Token::Word(dup.text));
    assert(expand(words, seq![Token::Word(dup.text)]) =~= seq![crate::forth::Instr::Run(Op::Apply(ForthBuiltin::Dup), true)]);
}

} // verus!
