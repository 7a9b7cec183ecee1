use vstd::prelude::*;

use crate::token::Op;

verus! {

/// Index of the last entry before `n` named `k`, or -1.
pub open spec fn last_index(entries: Seq<(String, Vec<Op>)>, k: Seq<char>, n: int) -> int
    decreases n,
{
    if n <= 0 {
        -1
    } else if entries[n - 1].0@ == k {
        n - 1
    } else {
        last_index(entries, k, n - 1)
    }
}

proof fn lemma_last_index_range(entries: Seq<(String, Vec<Op>)>, k: Seq<char>, n: int)
    requires
        0 <= n <= entries.len(),
    ensures
        -1 <= last_index(entries, k, n) < n,
        last_index(entries, k, n) >= 0 ==> entries[last_index(entries, k, n)].0@ == k,
        forall|i: int|
            last_index(entries, k, n) < i < n && 0 <= i ==> #[trigger] entries[i].0@ != k,
    decreases n,
{
    if n > 0 && entries[n - 1].0@ != k {
        lemma_last_index_range(entries, k, n - 1);
        assert forall|i: int|
            last_index(entries, k, n) < i < n && 0 <= i implies #[trigger] entries[i].0@ != k by {
            if i < n - 1 {
                assert(entries[i].0@ != k);
            }
        }
    }
}

proof fn lemma_last_index_same(
    a: Seq<(String, Vec<Op>)>,
    b: Seq<(String, Vec<Op>)>,
    k: Seq<char>,
    n: int,
)
    requires
        n <= a.len(),
        n <= b.len(),
        forall|i: int| 0 <= i < n ==> #[trigger] a[i].0@ == b[i].0@,
    ensures
        last_index(a, k, n) == last_index(b, k, n),
    decreases n,
{
    if n > 0 {
        lemma_last_index_same(a, b, k, n - 1);
    }
}

/// The words defined so far, each bound to its resolved body.
pub struct Dictionary {
    entries: Vec<(String, Vec<Op>)>,
}

impl View for Dictionary {
    type V = Map<Seq<char>, Seq<Op>>;

    closed spec fn view(&self) -> Map<Seq<char>, Seq<Op>> {
        let e = self.entries@;
        Map::new(
            |k: Seq<char>| last_index(e, k, e.len() as int) >= 0,
            |k: Seq<char>| e[last_index(e, k, e.len() as int)].1@,
        )
    }
}

impl Dictionary {
    pub fn new() -> (r: Dictionary)
        ensures
            r@ == Map::<Seq<char>, Seq<Op>>::empty(),
    {
        let r = Dictionary { entries: Vec::new() };
        assert(r@ =~= Map::<Seq<char>, Seq<Op>>::empty());
        r
    }

    fn find(&self, name: &str) -> (r: Option<usize>)
        ensures
            match r {
                Some(i) => i < self.entries@.len() && i == last_index(
                    self.entries@,
                    name@,
                    self.entries@.len() as int,
                ),
                None => last_index(self.entries@, name@, self.entries@.len() as int) == -1,
            },
    {
        let mut i = self.entries.len();
        while i > 0
            invariant
                i <= self.entries@.len(),
                last_index(self.entries@, name@, self.entries@.len() as int) == last_index(
                    self.entries@,
                    name@,
                    i as int,
                ),
            decreases i,
        {
            if crate::builtin::same_text(self.entries[i - 1].0.as_str(), name) {
                return Some(i - 1);
            }
            assert(self.entries@[i - 1].0@ != name@);
            i = i - 1;
        }
        None
    }

    /// The body bound to `name`, if any.
    pub fn lookup(&self, name: &str) -> (r: Option<&Vec<Op>>)
        ensures
            match r {
                Some(b) => self@.contains_key(name@) && b@ == self@[name@],
                None => !self@.contains_key(name@),
            },
    {
        proof {
            lemma_last_index_range(self.entries@, name@, self.entries@.len() as int);
        }
        match self.find(name) {
            Some(i) => Some(&self.entries[i].1),
            None => None,
        }
    }

    /// Binds `name` to `body`, replacing what it was bound to.
    pub fn define(&mut self, name: String, body: Vec<Op>)
        ensures
            final(self)@ == old(self)@.insert(name@, body@),
    {
        let ghost k = name@;
        let ghost b = body@;
        let ghost old_entries = self.entries@;
        proof {
            lemma_last_index_range(old_entries, k, old_entries.len() as int);
        }
        match self.find(name.as_str()) {
            Some(i) => {
                self.entries.set(i, (name, body));
                let ghost e = self.entries@;
                assert forall|j: int| 0 <= j < e.len() implies #[trigger] e[j].0@ == old_entries[j].0@ by {}
                assert forall|q: Seq<char>|
                    last_index(e, q, e.len() as int) == last_index(old_entries, q, e.len() as int) by {
                    lemma_last_index_same(e, old_entries, q, e.len() as int);
                }
                assert forall|q: Seq<char>|
                    #[trigger] self@.contains_key(q) == old(self)@.insert(k, b).contains_key(q)
                        && (self@.contains_key(q) ==> self@[q] == old(self)@.insert(k, b)[q]) by {
                    lemma_last_index_same(e, old_entries, q, e.len() as int);
                    lemma_last_index_range(e, q, e.len() as int);
                    lemma_last_index_range(old_entries, q, e.len() as int);
                }
                assert(self@ =~= old(self)@.insert(k, b));
            },
            None => {
                self.entries.push((name, body));
                let ghost e = self.entries@;
                let ghost n = old_entries.len() as int;
                assert forall|j: int| 0 <= j < n implies #[trigger] e[j].0@ == old_entries[j].0@ by {}
                assert forall|q: Seq<char>| q != k implies last_index(e, q, n + 1) == last_index(
                    old_entries,
                    q,
                    n,
                ) by {
                    lemma_last_index_same(e, old_entries, q, n);
                    lemma_last_index_range(old_entries, q, n);
                }
                assert(last_index(e, k, n + 1) == n);
                assert forall|q: Seq<char>|
                    #[trigger] self@.contains_key(q) == old(self)@.insert(k, b).contains_key(q)
                        && (self@.contains_key(q) ==> self@[q] == old(self)@.insert(k, b)[q]) by {
                    if q != k {
                        lemma_last_index_same(e, old_entries, q, n);
                        lemma_last_index_range(old_entries, q, n);
                    }
                }
                assert(self@ =~= old(self)@.insert(k, b));
            },
        }
    }
}

/// The session's stack and dictionary.
pub struct State {
    dictionary: Dictionary,
    stack: Vec<u64>,
}

/// What a session state holds: the stack, bottom first, and the definitions.
pub struct StateView {
    pub stack: Seq<u64>,
    pub words: Map<Seq<char>, Seq<Op>>,
}

impl View for State {
    type V = StateView;

    closed spec fn view(&self) -> StateView {
        StateView { stack: self.stack@, words: self.dictionary@ }
    }
}

impl State {
    pub fn new() -> (r: State)
        ensures
            r@.stack == Seq::<u64>::empty(),
            r@.words == Map::<Seq<char>, Seq<Op>>::empty(),
    {
        State { dictionary: Dictionary::new(), stack: Vec::new() }
    }

    pub fn stack(&self) -> (r: &Vec<u64>)
        ensures
            r@ == self@.stack,
    {
        &self.stack
    }

    pub fn depth(&self) -> (r: usize)
        ensures
            r == self@.stack.len(),
    {
        self.stack.len()
    }

    /// The value `k` places below the top.
    pub fn peek(&self, k: usize) -> (r: u64)
        requires
            k < self@.stack.len(),
        ensures
            r == self@.stack[self@.stack.len() - 1 - k],
    {
        self.stack[self.stack.len() - 1 - k]
    }

    pub fn push(&mut self, value: u64)
        ensures
            final(self)@.stack == old(self)@.stack.push(value),
            final(self)@.words == old(self)@.words,
    {
        self.stack.push(value);
    }

    pub fn pop(&mut self) -> (r: u64)
        requires
            old(self)@.stack.len() > 0,
        ensures
            r == old(self)@.stack.last(),
            final(self)@.stack == old(self)@.stack.drop_last(),
            final(self)@.words == old(self)@.words,
    {
        self.stack.pop().unwrap()
    }

    pub fn define_word(&mut self, name: String, body: Vec<Op>)
        ensures
            final(self)@.stack == old(self)@.stack,
            final(self)@.words == old(self)@.words.insert(name@, body@),
    {
        self.dictionary.define(name, body);
    }

    pub fn lookup(&self, name: &str) -> (r: Option<&Vec<Op>>)
        ensures
            match r {
                Some(b) => self@.words.contains_key(name@) && b@ == self@.words[name@],
                None => !self@.words.contains_key(name@),
            },
    {
        self.dictionary.lookup(name)
    }
}

} // verus!
