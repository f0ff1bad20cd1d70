//! A string-keyed map that keeps its entries in ascending key order, as
//! `BTreeMap<String, V>` does: lookups, inserts that replace an existing key,
//! and in-order iteration.

use vstd::prelude::*;
use crate::text::chars_of;

verus! {

/// Lexicographic order on character sequences by code point (the order of
/// `String`'s `Ord`, since UTF-8 preserves code-point order).
pub open spec fn seq_lt(a: Seq<char>, b: Seq<char>) -> bool
    decreases a.len(),
{
    if a.len() == 0 {
        b.len() > 0
    } else if b.len() == 0 {
        false
    } else if a[0] != b[0] {
        a[0] < b[0]
    } else {
        seq_lt(a.drop_first(), b.drop_first())
    }
}

/// `seq_lt` never relates a sequence to itself.
pub proof fn lemma_lt_irrefl(a: Seq<char>)
    ensures
        !seq_lt(a, a),
    decreases a.len(),
{
    if a.len() > 0 {
        lemma_lt_irrefl(a.drop_first());
    }
}

/// `seq_lt` is asymmetric.
pub proof fn lemma_lt_asym(a: Seq<char>, b: Seq<char>)
    ensures
        seq_lt(a, b) ==> !seq_lt(b, a),
    decreases a.len(),
{
    if a.len() > 0 && b.len() > 0 && a[0] == b[0] {
        lemma_lt_asym(a.drop_first(), b.drop_first());
    }
}

/// `seq_lt` is total on distinct sequences.
pub proof fn lemma_lt_total(a: Seq<char>, b: Seq<char>)
    ensures
        a == b || seq_lt(a, b) || seq_lt(b, a),
    decreases a.len(),
{
    if a.len() > 0 && b.len() > 0 {
        if a[0] == b[0] {
            lemma_lt_total(a.drop_first(), b.drop_first());
            if a.drop_first() == b.drop_first() {
                assert(a == seq![a[0]] + a.drop_first());
                assert(b == seq![b[0]] + b.drop_first());
            }
        }
    } else if a.len() == 0 && b.len() == 0 {
        assert(a == b);
    }
}

/// `seq_lt` is transitive.
pub proof fn lemma_lt_trans(a: Seq<char>, b: Seq<char>, c: Seq<char>)
    requires
        seq_lt(a, b),
        seq_lt(b, c),
    ensures
        seq_lt(a, c),
    decreases a.len(),
{
    if a.len() > 0 && b.len() > 0 && c.len() > 0 && a[0] == b[0] && b[0] == c[0] {
        lemma_lt_trans(a.drop_first(), b.drop_first(), c.drop_first());
    }
}

/// Compares two character sequences in `seq_lt` order.
pub fn chars_lt(a: &[char], b: &[char]) -> (r: bool)
    ensures
        r == seq_lt(a@, b@),
{
    let mut i: usize = 0;
    assert(a@.skip(0) == a@);
    assert(b@.skip(0) == b@);
    loop
        invariant
            i <= a@.len(),
            i <= b@.len(),
            seq_lt(a@, b@) == seq_lt(a@.skip(i as int), b@.skip(i as int)),
        decreases a.len() - i,
    {
        if i == a.len() {
            return i < b.len();
        }
        if i == b.len() {
            return false;
        }
        if a[i] != b[i] {
            return a[i] < b[i];
        }
        assert(a@.skip(i as int).drop_first() == a@.skip(i + 1));
        assert(b@.skip(i as int).drop_first() == b@.skip(i + 1));
        i = i + 1;
    }
}

/// The value stored for `k` (the first entry with that key).
pub open spec fn lookup<V>(s: Seq<(Seq<char>, V)>, k: Seq<char>) -> Option<V>
    decreases s.len(),
{
    if s.len() == 0 {
        None
    } else if s[0].0 == k {
        Some(s[0].1)
    } else {
        lookup(s.drop_first(), k)
    }
}

/// Entries after inserting `k => v` into a key-ordered entry list: the entry
/// for `k` is replaced, or a new one is placed before the first larger key.
pub open spec fn insert_sorted<V>(s: Seq<(Seq<char>, V)>, k: Seq<char>, v: V) -> Seq<(Seq<char>, V)>
    decreases s.len(),
{
    if s.len() == 0 {
        seq![(k, v)]
    } else if s[0].0 == k {
        seq![(k, v)] + s.drop_first()
    } else if seq_lt(k, s[0].0) {
        seq![(k, v)] + s
    } else {
        seq![s[0]] + insert_sorted(s.drop_first(), k, v)
    }
}

/// After inserting `k => v`, `k` maps to `v` and every other key keeps its
/// value.
pub proof fn lemma_lookup_insert<V>(s: Seq<(Seq<char>, V)>, k: Seq<char>, v: V)
    ensures
        lookup(insert_sorted(s, k, v), k) == Some(v),
        forall|k2: Seq<char>| k2 != k ==> lookup(#[trigger] insert_sorted(s, k, v), k2) == lookup(s, k2),
    decreases s.len(),
{
    let r = insert_sorted(s, k, v);
    if s.len() == 0 {
        assert forall|k2: Seq<char>| k2 != k implies lookup(#[trigger] insert_sorted(s, k, v), k2)
            == lookup(s, k2) by {
            assert(r == seq![(k, v)]);
            assert(r[0].0 == k);
            assert(r.drop_first() == Seq::<(Seq<char>, V)>::empty());
            assert(lookup(r.drop_first(), k2) is None);
        }
    } else {
        lemma_lookup_insert(s.drop_first(), k, v);
        if s[0].0 == k {
            assert(r.drop_first() == s.drop_first());
        } else if seq_lt(k, s[0].0) {
            assert(r.drop_first() == s);
        } else {
            assert(r.drop_first() == insert_sorted(s.drop_first(), k, v));
        }
        assert forall|k2: Seq<char>| k2 != k implies lookup(#[trigger] insert_sorted(s, k, v), k2)
            == lookup(s, k2) by {
            if s[0].0 == k {
                assert(r.drop_first() == s.drop_first());
            } else if seq_lt(k, s[0].0) {
                assert(r.drop_first() == s);
            } else {
                assert(r.drop_first() == insert_sorted(s.drop_first(), k, v));
                assert(lookup(insert_sorted(s.drop_first(), k, v), k2) == lookup(s.drop_first(), k2));
            }
        }
    }
}

/// Keys strictly ascending.
pub open spec fn sorted_keys<V>(s: Seq<(Seq<char>, V)>) -> bool {
    forall|i: int, j: int| 0 <= i < j < s.len() ==> seq_lt(#[trigger] s[i].0, #[trigger] s[j].0)
}

proof fn lemma_insert_prefix<V>(s: Seq<(Seq<char>, V)>, k: Seq<char>, v: V, i: int)
    requires
        0 <= i <= s.len(),
        forall|j: int| 0 <= j < i ==> seq_lt(#[trigger] s[j].0, k),
    ensures
        insert_sorted(s, k, v) == s.take(i) + insert_sorted(s.skip(i), k, v),
    decreases i,
{
    if i == 0 {
        assert(s.skip(0) == s);
        assert(s.take(0) + insert_sorted(s, k, v) == insert_sorted(s, k, v));
    } else {
        let t = s.drop_first();
        assert(seq_lt(s[0].0, k));
        lemma_lt_irrefl(k);
        lemma_lt_asym(s[0].0, k);
        assert forall|j: int| 0 <= j < i - 1 implies seq_lt(#[trigger] t[j].0, k) by {
            assert(t[j] == s[j + 1]);
        }
        lemma_insert_prefix(t, k, v, i - 1);
        assert(t.skip(i - 1) == s.skip(i));
        assert(s.take(i) == seq![s[0]] + t.take(i - 1));
    }
}

fn key_lt_at<V>(es: &Vec<(String, V)>, i: usize, k: &Vec<char>) -> (r: bool)
    requires
        i < es@.len(),
    ensures
        r == seq_lt(es@[i as int].0@, k@),
{
    let kc = chars_of(es[i].0.as_str());
    chars_lt(&kc, k)
}

fn key_eq_at<V>(es: &Vec<(String, V)>, i: usize, k: &Vec<char>) -> (r: bool)
    requires
        i < es@.len(),
    ensures
        r == (es@[i as int].0@ == k@),
{
    let kc = chars_of(es[i].0.as_str());
    crate::text::chars_eq(&kc, k)
}

/// A string-keyed map kept in ascending key order.
pub struct KeyedList<V> {
    entries: Vec<(String, V)>,
}

impl<V> View for KeyedList<V> {
    type V = Seq<(Seq<char>, V)>;

    closed spec fn view(&self) -> Seq<(Seq<char>, V)> {
        self.entries@.map_values(|e: (String, V)| (e.0@, e.1))
    }
}

impl<V> KeyedList<V> {
    #[verifier::type_invariant]
    closed spec fn inv(self) -> bool {
        sorted_keys(self@)
    }

    /// An empty map.
    pub fn new() -> (m: Self)
        ensures
            m@ == Seq::<(Seq<char>, V)>::empty(),
    {
        let m = KeyedList { entries: Vec::new() };
        assert(m@ == Seq::<(Seq<char>, V)>::empty());
        m
    }

    /// Number of entries.
    pub fn len(&self) -> (n: usize)
        ensures
            n == self@.len(),
    {
        self.entries.len()
    }

    /// Whether the map has no entries.
    pub fn is_empty(&self) -> (b: bool)
        ensures
            b == (self@.len() == 0),
    {
        self.entries.len() == 0
    }

    /// The `i`-th entry in key order.
    pub fn entry(&self, i: usize) -> (r: (&String, &V))
        requires
            i < self@.len(),
        ensures
            r.0@ == self@[i as int].0,
            *r.1 == self@[i as int].1,
    {
        let e = &self.entries[i];
        (&e.0, &e.1)
    }

    /// The value stored for `key`.
    pub fn get(&self, key: &str) -> (r: Option<&V>)
        ensures
            match r {
                Some(v) => lookup(self@, key@) == Some(*v),
                None => lookup(self@, key@) is None,
            },
    {
        let k = chars_of(key);
        let mut i: usize = 0;
        assert(self@.skip(0) == self@);
        while i < self.entries.len()
            invariant
                i <= self@.len(),
                self@.len() == self.entries@.len(),
                k@ == key@,
                lookup(self@, key@) == lookup(self@.skip(i as int), key@),
            decreases self.entries.len() - i,
        {
            let kc = chars_of(self.entries[i].0.as_str());
            assert(self@[i as int].0 == kc@);
            assert(self@.skip(i as int)[0] == self@[i as int]);
            if crate::text::chars_eq(&kc, &k) {
                return Some(&self.entries[i].1);
            }
            assert(self@.skip(i as int).drop_first() == self@.skip(i + 1));
            i = i + 1;
        }
        None
    }

    /// Inserts `key => value`, replacing any value stored for `key`.
    pub fn insert(&mut self, key: String, value: V)
        ensures
            final(self)@ == insert_sorted(old(self)@, key@, value),
            sorted_keys(old(self)@) && sorted_keys(final(self)@),
    {
        proof {
            use_type_invariant(&*self);
        }
        let k = chars_of(key.as_str());
        let ghost s = self@;
        let n = self.entries.len();
        let mut i: usize = 0;
        while i < n && key_lt_at(&self.entries, i, &k)
            invariant
                i <= n == s.len() == self.entries@.len(),
                s == self@,
                sorted_keys(s),
                k@ == key@,
                forall|j: int| 0 <= j < i ==> seq_lt(#[trigger] s[j].0, k@),
            decreases n - i,
        {
            i = i + 1;
        }
        let found = i < n && key_eq_at(&self.entries, i, &k);
        assert(i < n ==> !seq_lt(s[i as int].0, k@));
        proof {
            lemma_insert_prefix(s, k@, value, i as int);
        }
        if found {
            let ghost rest = s.skip(i as int);
            assert(rest[0].0 == k@);
            assert(rest.drop_first() == s.skip(i + 1));
            let mut es: Vec<(String, V)> = Vec::new();
            std::mem::swap(&mut es, &mut self.entries);
            es.set(i, (key, value));
            let ghost nv = es@.map_values(|e: (String, V)| (e.0@, e.1));
            assert(nv == s.take(i as int) + seq![(k@, value)] + s.skip(i + 1));
            assert(sorted_keys(nv)) by {
                assert forall|a: int, b: int| 0 <= a < b < nv.len() implies seq_lt(
                    #[trigger] nv[a].0,
                    #[trigger] nv[b].0,
                ) by {
                    assert(nv[a].0 == s[a].0);
                    assert(nv[b].0 == s[b].0);
                }
            }
            self.entries = es;
        } else {
            proof {
                if i < n {
                    lemma_lt_total(s[i as int].0, k@);
                    assert(seq_lt(k@, s[i as int].0));
                    assert(s.skip(i as int)[0] == s[i as int]);
                }
                assert(s.skip(i as int).len() == 0 ==> i == n);
            }
            let mut es: Vec<(String, V)> = Vec::new();
            std::mem::swap(&mut es, &mut self.entries);
            es.insert(i, (key, value));
            let ghost nv = es@.map_values(|e: (String, V)| (e.0@, e.1));
            assert(nv == s.take(i as int) + seq![(k@, value)] + s.skip(i as int));
            assert(sorted_keys(nv)) by {
                assert forall|a: int, b: int| 0 <= a < b < nv.len() implies seq_lt(
                    #[trigger] nv[a].0,
                    #[trigger] nv[b].0,
                ) by {
                    if b < i {
                        assert(nv[a].0 == s[a].0);
                        assert(nv[b].0 == s[b].0);
                    } else if b == i {
                        assert(nv[a].0 == s[a].0);
                    } else if a == i {
                        assert(nv[b].0 == s[b - 1].0);
                        if b - 1 > i {
                            lemma_lt_trans(k@, s[i as int].0, s[b - 1].0);
                        }
                    } else if a < i {
                        assert(nv[a].0 == s[a].0);
                        assert(nv[b].0 == s[b - 1].0);
                        lemma_lt_trans(s[a].0, k@, s[i as int].0);
                        if b - 1 > i {
                            lemma_lt_trans(s[a].0, s[i as int].0, s[b - 1].0);
                        }
                    } else {
                        assert(nv[a].0 == s[a - 1].0);
                        assert(nv[b].0 == s[b - 1].0);
                    }
                }
            }
            self.entries = es;
        }
    }
}

} // verus!
