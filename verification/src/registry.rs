use vstd::prelude::*;

verus! {

/// Whether some entry of `s` has key `k`.
pub open spec fn has_key<V>(s: Seq<(String, V)>, k: Seq<char>) -> bool {
    exists|i: int| 0 <= i < s.len() && (#[trigger] s[i]).0@ == k
}

/// No two entries of `s` share a key.
pub open spec fn keys_distinct<V>(s: Seq<(String, V)>) -> bool {
    forall|i: int, j: int|
        0 <= i < s.len() && 0 <= j < s.len() && i != j ==> (#[trigger] s[i]).0@ != (#[trigger] s[j]).0@
}

/// The map that an association list denotes.
pub open spec fn entries_map<V>(s: Seq<(String, V)>) -> Map<Seq<char>, V> {
    Map::new(
        |k: Seq<char>| has_key(s, k),
        |k: Seq<char>| s[choose|i: int| 0 <= i < s.len() && (#[trigger] s[i]).0@ == k].1,
    )
}

/// With distinct keys, the map holds each entry's value under its key.
pub proof fn lemma_entry_in_map<V>(s: Seq<(String, V)>, i: int)
    requires
        keys_distinct(s),
        0 <= i < s.len(),
    ensures
        entries_map(s).contains_key(s[i].0@),
        entries_map(s)[s[i].0@] == s[i].1,
{
    let k = s[i].0@;
    assert(has_key(s, k));
    let j = choose|j: int| 0 <= j < s.len() && (#[trigger] s[j]).0@ == k;
    assert(s[j].0@ == k);
    if j != i {
        assert(s[i].0@ != s[j].0@);
    }
}

/// Equality of two strings, by their characters.
pub fn str_equal(a: &str, b: &str) -> (r: bool)
    ensures
        r == (a@ == b@),
{
    let a_owned: String = a.to_owned();
    let b_owned: String = b.to_owned();
    a_owned == b_owned
}

/// A string-keyed table in which every key occurs at most once.
///
/// Entries keep their insertion order, so walking the table is
/// deterministic.
pub struct Registry<V> {
    entries: Vec<(String, V)>,
}

impl<V> Registry<V> {
    /// Well-formedness: no key occurs twice.
    pub closed spec fn wf(&self) -> bool {
        keys_distinct(self.entries@)
    }

    /// The map from keys to values.
    pub closed spec fn view(&self) -> Map<Seq<char>, V> {
        entries_map(self.entries@)
    }

    /// The number of entries.
    pub closed spec fn spec_len(&self) -> nat {
        self.entries@.len()
    }

    /// Key of the entry at position `i`.
    pub closed spec fn key_at(&self, i: int) -> Seq<char> {
        self.entries@[i].0@
    }

    /// Facts relating positions to the map: every position holds a distinct
    /// key of the map with its value, and every key of the map sits at some
    /// position.
    pub proof fn lemma_positions(&self)
        requires
            self.wf(),
        ensures
            forall|i: int|
                0 <= i < self.spec_len() ==> #[trigger] self.view().contains_key(self.key_at(i)),
            forall|i: int, j: int|
                0 <= i < self.spec_len() && 0 <= j < self.spec_len() && i != j
                    ==> #[trigger] self.key_at(i) != #[trigger] self.key_at(j),
            forall|k: Seq<char>|
                #[trigger] self.view().contains_key(k) ==> exists|i: int|
                    0 <= i < self.spec_len() && #[trigger] self.key_at(i) == k,
            self.view().dom().finite(),
            self.view().dom().len() == self.spec_len(),
    {
        let s = self.entries@;
        assert forall|i: int| 0 <= i < self.spec_len() implies #[trigger] self.view().contains_key(
            self.key_at(i),
        ) by {
            lemma_entry_in_map(s, i);
        }
        assert forall|k: Seq<char>| #[trigger] self.view().contains_key(k) implies exists|i: int|
            0 <= i < self.spec_len() && #[trigger] self.key_at(i) == k by {
            let i = choose|i: int| 0 <= i < s.len() && (#[trigger] s[i]).0@ == k;
            assert(self.key_at(i) == k);
        }
        let keys = s.map_values(|e: (String, V)| e.0@);
        assert(self.view().dom() =~= keys.to_set()) by {
            assert forall|k: Seq<char>| self.view().dom().contains(k) implies keys.to_set().contains(k) by {
                let i = choose|i: int| 0 <= i < s.len() && (#[trigger] s[i]).0@ == k;
                assert(keys[i] == k);
            }
            assert forall|k: Seq<char>| keys.to_set().contains(k) implies self.view().dom().contains(k) by {
                let i = choose|i: int| 0 <= i < keys.len() && keys[i] == k;
                assert(s[i].0@ == k);
                assert(has_key(s, k));
            }
        }
        assert(keys.no_duplicates()) by {
            assert forall|i: int, j: int| 0 <= i < keys.len() && 0 <= j < keys.len() && i != j implies keys[i] != keys[j] by {
                assert(s[i].0@ != s[j].0@);
            }
        }
        keys.unique_seq_to_set();
    }

    /// An empty table.
    pub fn new() -> (r: Registry<V>)
        ensures
            r.wf(),
            r.view() == Map::<Seq<char>, V>::empty(),
            r.spec_len() == 0,
    {
        let r = Registry { entries: Vec::new() };
        assert(r.view() =~= Map::<Seq<char>, V>::empty());
        r
    }

    /// The number of entries.
    pub fn len(&self) -> (n: usize)
        ensures
            n == self.spec_len(),
    {
        self.entries.len()
    }

    /// The entry at position `i`.
    pub fn entry_at(&self, i: usize) -> (e: (&String, &V))
        requires
            self.wf(),
            i < self.spec_len(),
        ensures
            e.0@ == self.key_at(i as int),
            self.view().contains_key(e.0@),
            self.view()[e.0@] == *e.1,
    {
        proof {
            lemma_entry_in_map(self.entries@, i as int);
        }
        let e = &self.entries[i];
        (&e.0, &e.1)
    }

    /// Position of the entry with key `k`, if any.
    fn find(&self, k: &str) -> (r: Option<usize>)
        ensures
            match r {
                Some(i) => i < self.entries@.len() && self.entries@[i as int].0@ == k@,
                None => !self.view().contains_key(k@),
            },
    {
        let n = self.entries.len();
        let mut i: usize = 0;
        while i < n
            invariant
                n == self.entries@.len(),
                i <= n,
                forall|j: int| 0 <= j < i ==> (#[trigger] self.entries@[j]).0@ != k@,
            decreases n - i,
        {
            let e = &self.entries[i];
            if str_equal(e.0.as_str(), k) {
                return Some(i);
            }
            i = i + 1;
        }
        None
    }

    /// Whether key `k` is present.
    pub fn contains_key(&self, k: &str) -> (b: bool)
        requires
            self.wf(),
        ensures
            b == self.view().contains_key(k@),
    {
        match self.find(k) {
            Some(i) => {
                proof {
                    lemma_entry_in_map(self.entries@, i as int);
                }
                true
            },
            None => false,
        }
    }

    /// The value under key `k`, if any.
    pub fn get(&self, k: &str) -> (r: Option<&V>)
        requires
            self.wf(),
        ensures
            match r {
                Some(v) => self.view().contains_key(k@) && *v == self.view()[k@],
                None => !self.view().contains_key(k@),
            },
    {
        match self.find(k) {
            Some(i) => {
                proof {
                    lemma_entry_in_map(self.entries@, i as int);
                }
                Some(&self.entries[i].1)
            },
            None => None,
        }
    }

    /// Remove key `k`, returning its value if it was present.
    pub fn remove(&mut self, k: &str) -> (r: Option<V>)
        requires
            old(self).wf(),
        ensures
            final(self).wf(),
            final(self).view() == old(self).view().remove(k@),
            match r {
                Some(v) => old(self).view().contains_key(k@) && v == old(self).view()[k@],
                None => !old(self).view().contains_key(k@),
            },
    {
        match self.find(k) {
            Some(i) => {
                let ghost s = self.entries@;
                proof {
                    lemma_entry_in_map(s, i as int);
                }
                let e = self.entries.remove(i);
                proof {
                    let t = self.entries@;
                    assert(t =~= s.remove(i as int));
                    assert(keys_distinct(t)) by {
                        assert forall|a: int, b: int|
                            0 <= a < t.len() && 0 <= b < t.len() && a != b implies (#[trigger] t[a]).0@
                            != (#[trigger] t[b]).0@ by {
                            let a2 = if a < i { a } else { a + 1 };
                            let b2 = if b < i { b } else { b + 1 };
                            assert(t[a] == s[a2]);
                            assert(t[b] == s[b2]);
                        }
                    }
                    lemma_remove_map(s, i as int);
                }
                Some(e.1)
            },
            None => {
                assert(self.view() =~= self.view().remove(k@));
                None
            },
        }
    }

    /// Insert or replace the value under key `k`.
    pub fn insert(&mut self, k: String, v: V)
        requires
            old(self).wf(),
        ensures
            final(self).wf(),
            final(self).view() == old(self).view().insert(k@, v),
    {
        let _ = self.remove(k.as_str());
        let ghost s = self.entries@;
        let ghost kv = k@;
        self.entries.push((k, v));
        proof {
            let t = self.entries@;
            assert(!has_key(s, kv)) by {
                if has_key(s, kv) {
                    assert(entries_map(s).contains_key(kv));
                }
            }
            assert(keys_distinct(t)) by {
                assert forall|a: int, b: int|
                    0 <= a < t.len() && 0 <= b < t.len() && a != b implies (#[trigger] t[a]).0@ != (
                    #[trigger] t[b]).0@ by {
                    if a < s.len() && b < s.len() {
                        assert(t[a] == s[a] && t[b] == s[b]);
                    } else if a < s.len() {
                        assert(t[a] == s[a]);
                    } else {
                        assert(t[b] == s[b]);
                    }
                }
            }
            assert(t.drop_last() =~= s);
            lemma_push_map(s, kv, t);
        }
    }

    /// Take every entry out, leaving the table empty.
    pub fn drain(&mut self) -> (out: Vec<(String, V)>)
        requires
            old(self).wf(),
        ensures
            final(self).wf(),
            final(self).view() == Map::<Seq<char>, V>::empty(),
            keys_distinct(out@),
            entries_map(out@) == old(self).view(),
    {
        let mut out: Vec<(String, V)> = Vec::new();
        core::mem::swap(&mut out, &mut self.entries);
        assert(self.view() =~= Map::<Seq<char>, V>::empty());
        out
    }
}

proof fn lemma_remove_map<V>(s: Seq<(String, V)>, i: int)
    requires
        keys_distinct(s),
        0 <= i < s.len(),
    ensures
        entries_map(s.remove(i)) == entries_map(s).remove(s[i].0@),
{
    let t = s.remove(i);
    let k = s[i].0@;
    let m = entries_map(s).remove(k);
    let mt = entries_map(t);
    assert forall|x: Seq<char>| mt.contains_key(x) == m.contains_key(x) by {
        if has_key(t, x) {
            let a = choose|a: int| 0 <= a < t.len() && (#[trigger] t[a]).0@ == x;
            let a2 = if a < i { a } else { a + 1 };
            assert(t[a] == s[a2]);
            assert(has_key(s, x));
            assert(x != k);
        }
        if m.contains_key(x) {
            let b = choose|b: int| 0 <= b < s.len() && (#[trigger] s[b]).0@ == x;
            assert(b != i);
            let b2 = if b < i { b } else { b - 1 };
            assert(t[b2] == s[b]);
            assert(has_key(t, x));
        }
    }
    assert forall|x: Seq<char>| mt.contains_key(x) implies mt[x] == m[x] by {
        let a = choose|a: int| 0 <= a < t.len() && (#[trigger] t[a]).0@ == x;
        let a2 = if a < i { a } else { a + 1 };
        assert(t[a] == s[a2]);
        assert(keys_distinct(t)) by {
            assert forall|p: int, q: int|
                0 <= p < t.len() && 0 <= q < t.len() && p != q implies (#[trigger] t[p]).0@ != (
                #[trigger] t[q]).0@ by {
                let p2 = if p < i { p } else { p + 1 };
                let q2 = if q < i { q } else { q + 1 };
                assert(t[p] == s[p2]);
                assert(t[q] == s[q2]);
            }
        }
        lemma_entry_in_map(t, a);
        lemma_entry_in_map(s, a2);
    }
    assert(mt =~= m);
}

proof fn lemma_push_map<V>(s: Seq<(String, V)>, k: Seq<char>, t: Seq<(String, V)>)
    requires
        keys_distinct(s),
        keys_distinct(t),
        !has_key(s, k),
        t.len() == s.len() + 1,
        t.drop_last() == s,
        t.last().0@ == k,
    ensures
        entries_map(t) == entries_map(s).insert(k, t.last().1),
{
    let m = entries_map(s).insert(k, t.last().1);
    let mt = entries_map(t);
    assert forall|x: Seq<char>| mt.contains_key(x) == m.contains_key(x) by {
        if has_key(t, x) && x != k {
            let a = choose|a: int| 0 <= a < t.len() && (#[trigger] t[a]).0@ == x;
            assert(a < s.len());
            assert(t[a] == s[a]);
            assert(has_key(s, x));
        }
        if x == k {
            assert(t[s.len() as int].0@ == k);
            assert(has_key(t, x));
        }
        if has_key(s, x) {
            let b = choose|b: int| 0 <= b < s.len() && (#[trigger] s[b]).0@ == x;
            assert(t[b] == s[b]);
            assert(has_key(t, x));
        }
    }
    assert forall|x: Seq<char>| mt.contains_key(x) implies mt[x] == m[x] by {
        let a = choose|a: int| 0 <= a < t.len() && (#[trigger] t[a]).0@ == x;
        lemma_entry_in_map(t, a);
        if a < s.len() {
            assert(t[a] == s[a]);
            lemma_entry_in_map(s, a);
        }
    }
    assert(mt =~= m);
}

} // verus!
