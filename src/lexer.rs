use vstd::prelude::*;

verus! {

/// What `str::trim` leaves of a text.
pub uninterp spec fn trimmed(s: Seq<char>) -> Seq<char>;

/// What `str::to_lowercase` makes of a text.
pub uninterp spec fn folded(s: Seq<char>) -> Seq<char>;

/// Relies on `str::trim`: the text without its leading and trailing
/// whitespace, which depends on the text alone.
#[verifier::external_body]
fn trim(s: &str) -> (r: &str)
    ensures
        r@ == trimmed(s@),
{
    s.trim()
}

/// Relies on `str::to_lowercase`: the lower-case form of the text, which
/// depends on the text alone.
#[verifier::external_body]
fn lowercase(s: &str) -> (r: String)
    ensures
        r@ == folded(s@),
{
    s.to_lowercase()
}

/// The pieces of `s` between single spaces; two spaces in a row make an
/// empty piece, and there is always at least one piece.
pub open spec fn split_spaces(s: Seq<char>) -> Seq<Seq<char>>
    decreases s.len(),
{
    if s.len() == 0 {
        seq![Seq::empty()]
    } else {
        let rest = split_spaces(s.drop_last());
        if s.last() == ' ' {
            rest.push(Seq::empty())
        } else {
            rest.update(rest.len() - 1, rest.last().push(s.last()))
        }
    }
}

pub proof fn lemma_split_spaces_nonempty(s: Seq<char>)
    ensures
        split_spaces(s).len() >= 1,
    decreases s.len(),
{
    if s.len() > 0 {
        lemma_split_spaces_nonempty(s.drop_last());
    }
}

/// The lexemes of a line: the trimmed line split at spaces, each piece
/// case-folded. A blank line has none.
pub open spec fn lexemes(line: Seq<char>) -> Seq<Seq<char>> {
    let t = trimmed(line);
    if t.len() == 0 {
        Seq::empty()
    } else {
        split_spaces(t).map_values(|p: Seq<char>| folded(p))
    }
}

/// Splits a line into its case-folded lexemes.
pub fn lex(line: &str) -> (r: Vec<String>)
    ensures
        r@.map_values(|w: String| w@) == lexemes(line@),
{
    let t = trim(line);
    let n = t.unicode_len();
    let mut out: Vec<String> = Vec::new();
    if n == 0 {
        assert(out@.map_values(|w: String| w@) =~= lexemes(line@));
        return out;
    }
    let mut start: usize = 0;
    let mut i: usize = 0;
    while i < n
        invariant
            n == t@.len(),
            start <= i <= n,
            split_spaces(t@.subrange(0, i as int)).len() == out@.len() + 1,
            split_spaces(t@.subrange(0, i as int)).last() == t@.subrange(start as int, i as int),
            forall|j: int|
                0 <= j < out@.len() ==> #[trigger] out@[j]@ == folded(
                    split_spaces(t@.subrange(0, i as int))[j],
                ),
        decreases n - i,
    {
        let ghost before = t@.subrange(0, i as int);
        let ghost after = t@.subrange(0, i + 1);
        assert(after.drop_last() =~= before);
        proof {
            lemma_split_spaces_nonempty(before);
        }
        let c = t.get_char(i);
        if c == ' ' {
            let piece = lowercase(t.substring_char(start, i));
            out.push(piece);
            start = i + 1;
            assert(t@.subrange(start as int, i + 1) =~= Seq::<char>::empty());
        } else {
            assert(t@.subrange(start as int, i + 1) =~= t@.subrange(start as int, i as int).push(c));
        }
        i = i + 1;
    }
    let piece = lowercase(t.substring_char(start, n));
    out.push(piece);
    assert(t@.subrange(0, n as int) =~= t@);
    assert(out@.map_values(|w: String| w@) =~= lexemes(line@));
    out
}

} // verus!
