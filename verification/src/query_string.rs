//! A multi-valued mapping parsed from the query portion of a request target.
//!
//! The raw text is split on `&` into fragments and each fragment on its
//! first `=` into key and value; a fragment with no `=` maps the whole
//! fragment to the empty value. The first occurrence of a key is stored as a
//! single value; a second occurrence promotes the entry to an ordered list
//! `[old value, new value]`, and later occurrences append in encounter
//! order. No percent-decoding is performed: values are kept exactly as they
//! appear on the wire. That is a known limitation, not a gap.
//!
//! All string data borrows from the buffer the request was parsed from.

use vstd::prelude::*;

use crate::text::{find_char, lemma_spec_find, spec_find, str_eq};

verus! {

/// The value(s) recorded for one key.
#[derive(Debug)]
pub enum Value<'buf> {
    /// The key occurred exactly once so far.
    Single(&'buf str),
    /// The key occurred at least twice; values in encounter order.
    Multiple(Vec<&'buf str>),
}

impl<'buf> Value<'buf> {
    /// The ordered values this entry holds: one for `Single`, all of them
    /// for `Multiple`.
    pub closed spec fn spec_values(self) -> Seq<Seq<char>> {
        match self {
            Value::Single(v) => seq![v@],
            Value::Multiple(vs) => vs.deep_view(),
        }
    }
}

/// The parsed query string: keys in first-seen order, each with its ordered
/// values.
#[derive(Debug)]
pub struct QueryString<'buf> {
    entries: Vec<(&'buf str, Value<'buf>)>,
}

/// Split `s` at every occurrence of `c`; `n` occurrences give `n + 1`
/// fragments, empty fragments included.
pub open spec fn spec_split(s: Seq<char>, c: char) -> Seq<Seq<char>>
    decreases s.len(),
    via spec_split_decreases
{
    match spec_find(s, c) {
        None => seq![s],
        Some(i) => seq![s.take(i)] + spec_split(s.skip(i + 1), c),
    }
}

#[via_fn]
proof fn spec_split_decreases(s: Seq<char>, c: char) {
    lemma_spec_find(s, c);
}

/// Key and value of one fragment: the parts before and after the first `=`,
/// or the whole fragment and the empty string when there is no `=`.
pub open spec fn spec_key_value(f: Seq<char>) -> (Seq<char>, Seq<char>) {
    match spec_find(f, '=') {
        None => (f, Seq::<char>::empty()),
        Some(i) => (f.take(i), f.skip(i + 1)),
    }
}

/// Position of `k` among the entry keys, if present.
pub open spec fn spec_key_index(m: Seq<(Seq<char>, Seq<Seq<char>>)>, k: Seq<char>) -> Option<int>
    decreases m.len(),
{
    if m.len() == 0 {
        None
    } else if m[0].0 == k {
        Some(0int)
    } else {
        match spec_key_index(m.drop_first(), k) {
            Some(i) => Some(i + 1),
            None => None,
        }
    }
}

/// Record one `k = v` pair: append `v` to an existing entry for `k`, or add
/// a fresh entry at the end.
pub open spec fn spec_insert(
    m: Seq<(Seq<char>, Seq<Seq<char>>)>,
    k: Seq<char>,
    v: Seq<char>,
) -> Seq<(Seq<char>, Seq<Seq<char>>)> {
    match spec_key_index(m, k) {
        None => m.push((k, seq![v])),
        Some(i) => m.update(i, (m[i].0, m[i].1.push(v))),
    }
}

/// Fold the fragments, in order, into the entry sequence.
pub open spec fn spec_query_of_fragments(frags: Seq<Seq<char>>) -> Seq<
    (Seq<char>, Seq<Seq<char>>),
>
    decreases frags.len(),
{
    if frags.len() == 0 {
        Seq::empty()
    } else {
        spec_insert(
            spec_query_of_fragments(frags.drop_last()),
            spec_key_value(frags.last()).0,
            spec_key_value(frags.last()).1,
        )
    }
}

/// The entries a raw query string parses to.
pub open spec fn spec_parse_query(s: Seq<char>) -> Seq<(Seq<char>, Seq<Seq<char>>)> {
    spec_query_of_fragments(spec_split(s, '&'))
}

/// An in-bounds key hit with no earlier hit pins `spec_key_index` down.
proof fn lemma_key_index_at(m: Seq<(Seq<char>, Seq<Seq<char>>)>, k: Seq<char>, i: int)
    requires
        0 <= i < m.len(),
        m[i].0 == k,
        forall|j: int| 0 <= j < i ==> m[j].0 != k,
    ensures
        spec_key_index(m, k) == Some(i),
    decreases i,
{
    if i == 0 {
    } else {
        assert(m[0].0 != k);
        assert(m.drop_first()[i - 1] == m[i]);
        assert forall|j: int| 0 <= j < i - 1 implies m.drop_first()[j].0 != k by {
            assert(m[j + 1].0 != k);
        }
        lemma_key_index_at(m.drop_first(), k, i - 1);
    }
}

/// A key that matches no entry is absent.
proof fn lemma_key_index_none(m: Seq<(Seq<char>, Seq<Seq<char>>)>, k: Seq<char>)
    requires
        forall|j: int| 0 <= j < m.len() ==> m[j].0 != k,
    ensures
        spec_key_index(m, k) is None,
    decreases m.len(),
{
    if m.len() > 0 {
        assert forall|j: int| 0 <= j < m.drop_first().len() implies m.drop_first()[j].0 != k by {
            assert(m[j + 1].0 != k);
        }
        lemma_key_index_none(m.drop_first(), k);
    }
}

/// Where `spec_key_index` points, the key matches and nothing earlier
/// does. When it is `None`, no entry holds the key.
proof fn lemma_key_index(m: Seq<(Seq<char>, Seq<Seq<char>>)>, k: Seq<char>)
    ensures
        match spec_key_index(m, k) {
            Some(i) => 0 <= i < m.len() && m[i].0 == k && (forall|j: int|
                0 <= j < i ==> m[j].0 != k),
            None => forall|j: int| 0 <= j < m.len() ==> m[j].0 != k,
        },
    decreases m.len(),
{
    if m.len() == 0 {
    } else if m[0].0 == k {
    } else {
        lemma_key_index(m.drop_first(), k);
        match spec_key_index(m.drop_first(), k) {
            Some(i) => {
                assert forall|j: int| 0 <= j < i + 1 implies m[j].0 != k by {
                    if j > 0 {
                        assert(m.drop_first()[j - 1].0 != k);
                    }
                }
            },
            None => {
                assert forall|j: int| 0 <= j < m.len() implies m[j].0 != k by {
                    if j > 0 {
                        assert(m.drop_first()[j - 1].0 != k);
                    }
                }
            },
        }
    }
}

/// Folding fragments never repeats a key: a pair either joins the entry
/// that already holds its key or opens a fresh one.
proof fn lemma_fold_keys_unique(frags: Seq<Seq<char>>)
    ensures
        forall|i: int, j: int|
            0 <= i < j < spec_query_of_fragments(frags).len()
                ==> spec_query_of_fragments(frags)[i].0 != spec_query_of_fragments(frags)[j].0,
    decreases frags.len(),
{
    if frags.len() > 0 {
        lemma_fold_keys_unique(frags.drop_last());
        let prev = spec_query_of_fragments(frags.drop_last());
        let k = spec_key_value(frags.last()).0;
        lemma_key_index(prev, k);
        match spec_key_index(prev, k) {
            None => {
                assert forall|i: int, j: int|
                    0 <= i < j < spec_query_of_fragments(frags).len() implies spec_query_of_fragments(
                    frags,
                )[i].0 != spec_query_of_fragments(frags)[j].0 by {
                    if j < prev.len() {
                        assert(prev[i].0 != prev[j].0);
                    } else {
                        assert(prev[i].0 != k);
                    }
                }
            },
            Some(_) => {
            },
        }
    }
}

/// A parsed query string never repeats a key: repeated occurrences on the
/// wire accumulate inside one entry instead of adding another.
pub proof fn lemma_query_keys_unique(s: Seq<char>)
    ensures
        forall|i: int, j: int|
            0 <= i < j < spec_parse_query(s).len() ==> spec_parse_query(s)[i].0
                != spec_parse_query(s)[j].0,
{
    lemma_fold_keys_unique(spec_split(s, '&'));
}

/// The values of every fragment that names key `k`, in encounter order.
pub open spec fn spec_values_for(frags: Seq<Seq<char>>, k: Seq<char>) -> Seq<Seq<char>>
    decreases frags.len(),
{
    if frags.len() == 0 {
        Seq::empty()
    } else {
        let prev = spec_values_for(frags.drop_last(), k);
        if spec_key_value(frags.last()).0 == k {
            prev.push(spec_key_value(frags.last()).1)
        } else {
            prev
        }
    }
}

/// Looking a key up yields exactly the values of the fragments that named
/// it, in encounter order; a key no fragment names gets no entry.
pub proof fn lemma_lookup_accumulates(frags: Seq<Seq<char>>, k: Seq<char>)
    ensures
        match spec_key_index(spec_query_of_fragments(frags), k) {
            None => spec_values_for(frags, k) == Seq::<Seq<char>>::empty(),
            Some(i) => spec_query_of_fragments(frags)[i].1 == spec_values_for(frags, k),
        },
    decreases frags.len(),
{
    if frags.len() > 0 {
        lemma_lookup_accumulates(frags.drop_last(), k);
        let prev = spec_query_of_fragments(frags.drop_last());
        let cur = spec_query_of_fragments(frags);
        let kv = spec_key_value(frags.last());
        lemma_key_index(prev, kv.0);
        lemma_key_index(prev, k);
        if kv.0 == k {
            match spec_key_index(prev, k) {
                None => {
                    assert(cur == prev.push((k, seq![kv.1])));
                    lemma_key_index_at(cur, k, prev.len() as int);
                    assert(spec_values_for(frags.drop_last(), k) =~= Seq::<Seq<char>>::empty());
                    assert(cur[prev.len() as int].1 =~= spec_values_for(frags, k));
                },
                Some(i) => {
                    assert(cur == prev.update(i, (prev[i].0, prev[i].1.push(kv.1))));
                    assert(cur[i].0 == k);
                    assert forall|j: int| 0 <= j < i implies cur[j].0 != k by {
                        assert(cur[j] == prev[j]);
                    }
                    lemma_key_index_at(cur, k, i);
                    assert(cur[i].1 == spec_values_for(frags, k));
                },
            }
        } else {
            match spec_key_index(prev, k) {
                None => {
                    assert forall|j: int| 0 <= j < cur.len() implies cur[j].0 != k by {
                        if j < prev.len() {
                            assert(cur[j].0 == prev[j].0);
                        }
                    }
                    lemma_key_index_none(cur, k);
                },
                Some(i) => {
                    assert(cur[i].0 == k && cur[i].1 == prev[i].1);
                    assert forall|j: int| 0 <= j < i implies cur[j].0 != k by {
                        assert(cur[j].0 == prev[j].0);
                    }
                    lemma_key_index_at(cur, k, i);
                },
            }
        }
    }
}

impl<'buf> View for QueryString<'buf> {
    type V = Seq<(Seq<char>, Seq<Seq<char>>)>;

    /// Keys in first-seen order, each with its ordered values.
    closed spec fn view(&self) -> Seq<(Seq<char>, Seq<Seq<char>>)> {
        Seq::new(self.entries@.len(), |i: int| (self.entries@[i].0@, self.entries@[i].1.spec_values()))
    }
}

impl<'buf> QueryString<'buf> {
    /// Structural invariant: keys are pairwise distinct, and an entry is
    /// `Multiple` exactly when it holds at least two values.
    pub closed spec fn wf(self) -> bool {
        &&& forall|i: int, j: int|
            0 <= i < j < self.entries@.len() ==> self.entries@[i].0@ != self.entries@[j].0@
        &&& forall|i: int|
            0 <= i < self.entries@.len() ==> match #[trigger] self.entries@[i].1 {
                Value::Single(_) => true,
                Value::Multiple(vs) => vs@.len() >= 2,
            }
    }

    /// Record one key/value pair as the insertion policy dictates.
    fn push_pair(&mut self, key: &'buf str, val: &'buf str)
        requires
            old(self).wf(),
        ensures
            final(self).wf(),
            final(self)@ == spec_insert(old(self)@, key@, val@),
    {
        let n = self.entries.len();
        let mut k: usize = 0;
        while k < n
            invariant
                n == self.entries.len(),
                0 <= k <= n,
                forall|j: int| 0 <= j < k ==> self@[j].0 != key@,
                self.wf(),
                self == old(self),
            decreases n - k,
        {
            if str_eq(self.entries[k].0, key) {
                proof {
                    lemma_key_index_at(self@, key@, k as int);
                }
                let (k0, v0) = self.entries.remove(k);
                let new_value = match v0 {
                    Value::Single(first) => Value::Multiple(vec![first, val]),
                    Value::Multiple(mut vs) => {
                        vs.push(val);
                        Value::Multiple(vs)
                    },
                };
                self.entries.insert(k, (k0, new_value));
                proof {
                    assert(self.entries@ =~= old(self).entries@.update(
                        k as int,
                        self.entries@[k as int],
                    ));
                    assert(self.entries@[k as int].1.spec_values() =~= old(self)@[k as int].1.push(
                        val@,
                    ));
                    assert(self@ =~= spec_insert(old(self)@, key@, val@));
                }
                return ;
            }
            k += 1;
        }
        proof {
            lemma_key_index_none(self@, key@);
        }
        self.entries.push((key, Value::Single(val)));
        proof {
            assert(self@ =~= spec_insert(old(self)@, key@, val@));
            assert forall|i: int, j: int|
                0 <= i < j < self.entries@.len() implies self.entries@[i].0@
                != self.entries@[j].0@ by {
                if j == self.entries@.len() - 1 {
                    assert(old(self)@[i].0 == self.entries@[i].0@);
                }
            }
        }
    }

    /// Split one fragment at its first `=` and record the pair.
    fn push_fragment(&mut self, frag: &'buf str)
        requires
            old(self).wf(),
        ensures
            final(self).wf(),
            final(self)@ == spec_insert(
                old(self)@,
                spec_key_value(frag@).0,
                spec_key_value(frag@).1,
            ),
    {
        let n = frag.unicode_len();
        match find_char(frag, '=') {
            Some(i) => {
                proof {
                    lemma_spec_find(frag@, '=');
                }
                let key = frag.substring_char(0, i);
                let val = frag.substring_char(i + 1, n);
                self.push_pair(key, val);
            },
            None => {
                let val = "";
                proof {
                    reveal_strlit("");
                    assert(val@ =~= Seq::<char>::empty());
                }
                self.push_pair(frag, val);
            },
        }
    }

    /// Parse a raw query string into its entries.
    pub fn parse(raw: &'buf str) -> (r: QueryString<'buf>)
        ensures
            r.wf(),
            r@ == spec_parse_query(raw@),
    {
        let mut qs = QueryString { entries: Vec::new() };
        let ghost mut done: Seq<Seq<char>> = Seq::empty();
        let mut rest: &'buf str = raw;
        let mut finished = false;
        proof {
            assert(qs@ =~= spec_query_of_fragments(done));
        }
        while !finished
            invariant
                qs.wf(),
                qs@ == spec_query_of_fragments(done),
                !finished ==> spec_split(raw@, '&') == done + spec_split(rest@, '&'),
                finished ==> spec_split(raw@, '&') == done,
            decreases (if finished {
                0int
            } else {
                rest@.len() as int + 1
            }),
        {
            match find_char(rest, '&') {
                Some(i) => {
                    proof {
                        lemma_spec_find(rest@, '&');
                    }
                    let n = rest.unicode_len();
                    let frag = rest.substring_char(0, i);
                    let tail = rest.substring_char(i + 1, n);
                    qs.push_fragment(frag);
                    proof {
                        assert(spec_split(rest@, '&') == seq![frag@] + spec_split(tail@, '&'));
                        assert(done + spec_split(rest@, '&') =~~= done.push(frag@) + spec_split(
                            tail@,
                            '&',
                        ));
                        let done2 = done.push(frag@);
                        assert(done2.drop_last() =~= done);
                        assert(done2.last() == frag@);
                        done = done2;
                        assert(qs@ == spec_query_of_fragments(done));
                    }
                    rest = tail;
                },
                None => {
                    qs.push_fragment(rest);
                    proof {
                        assert(spec_split(rest@, '&') == seq![rest@]);
                        assert(done + spec_split(rest@, '&') =~~= done.push(rest@));
                        let done2 = done.push(rest@);
                        assert(done2.drop_last() =~= done);
                        assert(done2.last() == rest@);
                        done = done2;
                        assert(qs@ == spec_query_of_fragments(done));
                    }
                    finished = true;
                },
            }
        }
        qs
    }

    /// Look the key up. The result is `None` when the key never occurred,
    /// and otherwise holds the entry's value(s); callers must handle all
    /// three shapes.
    pub fn get(&self, key: &str) -> (r: Option<&Value<'buf>>)
        ensures
            match spec_key_index(self@, key@) {
                None => r is None,
                Some(j) => r is Some && r->0.spec_values() == self@[j].1,
            },
    {
        let n = self.entries.len();
        let mut k: usize = 0;
        while k < n
            invariant
                n == self.entries.len(),
                0 <= k <= n,
                forall|j: int| 0 <= j < k ==> self@[j].0 != key@,
            decreases n - k,
        {
            if str_eq(self.entries[k].0, key) {
                proof {
                    lemma_key_index_at(self@, key@, k as int);
                }
                return Some(&self.entries[k].1);
            }
            k += 1;
        }
        proof {
            lemma_key_index_none(self@, key@);
        }
        None
    }
}

} // verus!
