//! A string-keyed map that keeps its entries in ascending key order, so that
//! iterating its keys visits them in the order of `str`'s `<`.

use vstd::prelude::*;

use crate::text::{
    lemma_str_lt_asymmetric, lemma_str_lt_irreflexive, lemma_str_lt_total,
    lemma_str_lt_transitive, str_eq, str_less, str_lt,
};

verus! {

/// Keys strictly ascending: every key occurs once, in `str` order.
pub open spec fn sorted_keys<V>(s: Seq<(String, V)>) -> bool {
    forall|i: int, j: int| 0 <= i < j < s.len() ==> str_lt(#[trigger] s[i].0@, #[trigger] s[j].0@)
}

/// Some entry of `s` has key `k`.
pub open spec fn has_key<V>(s: Seq<(String, V)>, k: Seq<char>) -> bool {
    exists|i: int| 0 <= i < s.len() && #[trigger] s[i].0@ == k
}

/// The map that a list of entries with distinct keys denotes.
pub open spec fn entries_map<V>(s: Seq<(String, V)>) -> Map<Seq<char>, V> {
    Map::new(
        |k: Seq<char>| has_key(s, k),
        |k: Seq<char>| s[choose|i: int| 0 <= i < s.len() && #[trigger] s[i].0@ == k].1,
    )
}

#[derive(Debug, PartialEq)]
pub struct KeyedMap<V> {
    entries: Vec<(String, V)>,
}

impl<V> View for KeyedMap<V> {
    type V = Map<Seq<char>, V>;

    closed spec fn view(&self) -> Map<Seq<char>, V> {
        entries_map(self.entries@)
    }
}

pub proof fn lemma_entries_map_at<V>(s: Seq<(String, V)>, i: int)
    requires
        sorted_keys(s),
        0 <= i < s.len(),
    ensures
        entries_map(s).contains_key(s[i].0@),
        entries_map(s)[s[i].0@] == s[i].1,
{
    let k = s[i].0@;
    assert(has_key(s, k));
    let j = choose|j: int| 0 <= j < s.len() && #[trigger] s[j].0@ == k;
    if j < i {
        assert(str_lt(s[j].0@, s[i].0@));
        lemma_str_lt_irreflexive(k);
    } else if i < j {
        assert(str_lt(s[i].0@, s[j].0@));
        lemma_str_lt_irreflexive(k);
    }
}


pub proof fn lemma_update_same_key<V>(s: Seq<(String, V)>, i: int, e: (String, V))
    requires
        sorted_keys(s),
        0 <= i < s.len(),
        e.0@ == s[i].0@,
    ensures
        sorted_keys(s.update(i, e)),
        entries_map(s.update(i, e)) == entries_map(s).insert(e.0@, e.1),
{
    let t = s.update(i, e);
    assert forall|a: int, b: int| 0 <= a < b < t.len() implies str_lt(
        #[trigger] t[a].0@,
        #[trigger] t[b].0@,
    ) by {
        assert(str_lt(s[a].0@, s[b].0@));
    }
    let m1 = entries_map(t);
    let m2 = entries_map(s).insert(e.0@, e.1);
    assert forall|k: Seq<char>| m1.contains_key(k) <==> m2.contains_key(k) by {
        if has_key(t, k) {
            let j = choose|j: int| 0 <= j < t.len() && #[trigger] t[j].0@ == k;
            assert(s[j].0@ == k);
        }
        if has_key(s, k) {
            let j = choose|j: int| 0 <= j < s.len() && #[trigger] s[j].0@ == k;
            assert(t[j].0@ == k);
        }
        if k == e.0@ {
            assert(t[i].0@ == k);
        }
    }
    assert forall|k: Seq<char>| #[trigger] m1.contains_key(k) implies m1[k] == m2[k] by {
        let j = choose|j: int| 0 <= j < t.len() && #[trigger] t[j].0@ == k;
        lemma_entries_map_at(t, j);
        if j != i {
            lemma_entries_map_at(s, j);
        }
    }
    assert(m1 =~= m2);
}

pub proof fn lemma_insert_at<V>(s: Seq<(String, V)>, i: int, e: (String, V))
    requires
        sorted_keys(s),
        0 <= i <= s.len(),
        forall|j: int| 0 <= j < i ==> str_lt(#[trigger] s[j].0@, e.0@),
        forall|j: int| i <= j < s.len() ==> str_lt(e.0@, #[trigger] s[j].0@),
    ensures
        sorted_keys(s.insert(i, e)),
        entries_map(s.insert(i, e)) == entries_map(s).insert(e.0@, e.1),
{
    let t = s.insert(i, e);
    assert forall|a: int, b: int| 0 <= a < b < t.len() implies str_lt(
        #[trigger] t[a].0@,
        #[trigger] t[b].0@,
    ) by {
        if b < i {
            assert(str_lt(s[a].0@, s[b].0@));
        } else if b == i {
        } else if a < i {
            lemma_str_lt_transitive(s[a].0@, e.0@, s[b - 1].0@);
        } else if a == i {
        } else {
            assert(str_lt(s[a - 1].0@, s[b - 1].0@));
        }
    }
    let m1 = entries_map(t);
    let m2 = entries_map(s).insert(e.0@, e.1);
    assert forall|k: Seq<char>| m1.contains_key(k) <==> m2.contains_key(k) by {
        if has_key(t, k) {
            let j = choose|j: int| 0 <= j < t.len() && #[trigger] t[j].0@ == k;
            if j < i {
                assert(s[j].0@ == k);
            } else if j > i {
                assert(s[j - 1].0@ == k);
            }
        }
        if has_key(s, k) {
            let j = choose|j: int| 0 <= j < s.len() && #[trigger] s[j].0@ == k;
            if j < i {
                assert(t[j].0@ == k);
            } else {
                assert(t[j + 1].0@ == k);
            }
        }
        if k == e.0@ {
            assert(t[i].0@ == k);
        }
    }
    assert forall|k: Seq<char>| #[trigger] m1.contains_key(k) implies m1[k] == m2[k] by {
        let j = choose|j: int| 0 <= j < t.len() && #[trigger] t[j].0@ == k;
        lemma_entries_map_at(t, j);
        if j < i {
            lemma_entries_map_at(s, j);
            assert(str_lt(s[j].0@, e.0@));
            lemma_str_lt_irreflexive(k);
        } else if j > i {
            lemma_entries_map_at(s, j - 1);
            assert(str_lt(e.0@, s[j - 1].0@));
            lemma_str_lt_irreflexive(k);
        }
    }
    assert(m1 =~= m2);
}

impl<V> KeyedMap<V> {
    #[verifier::type_invariant]
    closed spec fn inv(self) -> bool {
        sorted_keys(self.entries@)
    }

    /// The keys in iteration (ascending) order.
    pub closed spec fn key_seq(self) -> Seq<Seq<char>> {
        self.entries@.map_values(|e: (String, V)| e.0@)
    }

    pub fn new() -> (m: Self)
        ensures
            m@ == Map::<Seq<char>, V>::empty(),
            m.key_seq().len() == 0,
    {
        let m = KeyedMap { entries: Vec::new() };
        assert(m@ =~= Map::<Seq<char>, V>::empty());
        m
    }

    pub fn len(&self) -> (n: usize)
        ensures
            n == self.key_seq().len(),
    {
        self.entries.len()
    }

    /// Position of the first entry whose key is not below `k`.
    fn lower_bound(&self, k: &str) -> (i: usize)
        ensures
            i <= self.entries@.len(),
            forall|j: int| 0 <= j < i ==> str_lt(#[trigger] self.entries@[j].0@, k@),
            forall|j: int| i <= j < self.entries@.len() ==> !str_lt(#[trigger] self.entries@[j].0@, k@),
    {
        proof {
            use_type_invariant(self);
        }
        let n = self.entries.len();
        let mut i: usize = 0;
        while i < n
            invariant
                n == self.entries@.len(),
                i <= n,
                sorted_keys(self.entries@),
                forall|j: int| 0 <= j < i ==> str_lt(#[trigger] self.entries@[j].0@, k@),
            decreases n - i,
        {
            if !str_less(self.entries[i].0.as_str(), k) {
                proof {
                    assert forall|j: int| i <= j < self.entries@.len() implies !str_lt(
                        #[trigger] self.entries@[j].0@,
                        k@,
                    ) by {
                        if j > i && str_lt(self.entries@[j].0@, k@) {
                            assert(str_lt(self.entries@[i as int].0@, self.entries@[j].0@));
                            lemma_str_lt_transitive(
                                self.entries@[i as int].0@,
                                self.entries@[j].0@,
                                k@,
                            );
                        }
                    }
                }
                return i;
            }
            i = i + 1;
        }
        i
    }

    pub fn get(&self, k: &str) -> (r: Option<&V>)
        ensures
            r is Some <==> self@.contains_key(k@),
            r is Some ==> *r.unwrap() == self@[k@],
    {
        proof {
            use_type_invariant(self);
        }
        let i = self.lower_bound(k);
        if i < self.entries.len() && str_eq(self.entries[i].0.as_str(), k) {
            proof {
                lemma_entries_map_at(self.entries@, i as int);
            }
            Some(&self.entries[i].1)
        } else {
            proof {
                if has_key(self.entries@, k@) {
                    let j = choose|j: int| 0 <= j < self.entries@.len() && #[trigger] self.entries@[j].0@ == k@;
                    lemma_str_lt_irreflexive(k@);
                    if j > i {
                        assert(!str_lt(self.entries@[i as int].0@, k@));
                        assert(str_lt(self.entries@[i as int].0@, self.entries@[j].0@));
                        lemma_str_lt_total(self.entries@[i as int].0@, k@);
                        lemma_str_lt_asymmetric(self.entries@[i as int].0@, k@);
                    }
                }
            }
            None
        }
    }

    pub fn is_empty(&self) -> (b: bool)
        ensures
            b <==> self@.dom() == Set::<Seq<char>>::empty(),
    {
        proof {
            use_type_invariant(self);
        }
        if self.entries.len() == 0 {
            assert(self@.dom() =~= Set::<Seq<char>>::empty());
            true
        } else {
            proof {
                lemma_entries_map_at(self.entries@, 0);
                assert(self@.dom().contains(self.entries@[0].0@));
            }
            false
        }
    }

    pub fn contains_key(&self, k: &str) -> (b: bool)
        ensures
            b == self@.contains_key(k@),
    {
        self.get(k).is_some()
    }

    /// Sets `k` to `v`, replacing any earlier value for `k`.
    pub fn insert(&mut self, k: String, v: V)
        ensures
            final(self)@ == old(self)@.insert(k@, v),
    {
        proof {
            use_type_invariant(&*self);
        }
        let i = self.lower_bound(k.as_str());
        if i < self.entries.len() && str_eq(self.entries[i].0.as_str(), k.as_str()) {
            proof {
                lemma_update_same_key(self.entries@, i as int, (k, v));
            }
            let mut entries: Vec<(String, V)> = Vec::new();
            std::mem::swap(&mut entries, &mut self.entries);
            entries.set(i, (k, v));
            self.entries = entries;
        } else {
            proof {
                assert forall|j: int| i <= j < self.entries@.len() implies str_lt(
                    k@,
                    #[trigger] self.entries@[j].0@,
                ) by {
                    let kj = self.entries@[j].0@;
                    if kj == k@ {
                        if j > i {
                            assert(str_lt(self.entries@[i as int].0@, kj));
                        }
                    } else {
                        lemma_str_lt_total(kj, k@);
                    }
                }
                lemma_insert_at(self.entries@, i as int, (k, v));
            }
            let mut entries: Vec<(String, V)> = Vec::new();
            std::mem::swap(&mut entries, &mut self.entries);
            entries.insert(i, (k, v));
            self.entries = entries;
        }
    }

    /// The keys, in ascending order.
    pub fn keys(&self) -> (r: Vec<String>)
        ensures
            r@.len() == self.key_seq().len(),
            forall|i: int| 0 <= i < r@.len() ==> #[trigger] r@[i]@ == self.key_seq()[i],
            forall|i: int, j: int| 0 <= i < j < r@.len() ==> str_lt(#[trigger] r@[i]@, #[trigger] r@[j]@),
            forall|i: int| 0 <= i < r@.len() ==> self@.contains_key(#[trigger] r@[i]@),
            forall|k: Seq<char>| #[trigger] self@.contains_key(k) ==> exists|i: int| 0 <= i < r@.len() && #[trigger] r@[i]@ == k,
    {
        proof {
            use_type_invariant(self);
        }
        let n = self.entries.len();
        let mut r: Vec<String> = Vec::new();
        let mut i: usize = 0;
        while i < n
            invariant
                n == self.entries@.len(),
                i <= n,
                sorted_keys(self.entries@),
                r@.len() == i,
                forall|j: int| 0 <= j < i ==> #[trigger] r@[j]@ == self.entries@[j].0@,
            decreases n - i,
        {
            r.push(self.entries[i].0.clone());
            i = i + 1;
        }
        proof {
            assert forall|a: int, b: int| 0 <= a < b < r@.len() implies str_lt(#[trigger] r@[a]@, #[trigger] r@[b]@) by {
                assert(r@[a]@ == self.entries@[a].0@);
                assert(r@[b]@ == self.entries@[b].0@);
            }
            assert forall|a: int| 0 <= a < r@.len() implies self@.contains_key(#[trigger] r@[a]@) by {
                assert(r@[a]@ == self.entries@[a].0@);
                lemma_entries_map_at(self.entries@, a);
            }
            assert forall|k: Seq<char>| #[trigger] self@.contains_key(k) implies exists|a: int| 0 <= a < r@.len() && #[trigger] r@[a]@ == k by {
                let j = choose|j: int| 0 <= j < self.entries@.len() && #[trigger] self.entries@[j].0@ == k;
                assert(r@[j]@ == k);
            }
        }
        r
    }
}

impl<V: Clone> Clone for KeyedMap<V> {
    /// Copies every entry; keys are kept and each value is its clone.
    fn clone(&self) -> (r: Self)
        ensures
            r@.dom() == self@.dom(),
            forall|k: Seq<char>| #[trigger] self@.contains_key(k) ==> cloned(self@[k], r@[k]),
    {
        proof {
            use_type_invariant(self);
        }
        let n = self.entries.len();
        let mut out: Vec<(String, V)> = Vec::new();
        let mut i: usize = 0;
        while i < n
            invariant
                n == self.entries@.len(),
                i <= n,
                sorted_keys(self.entries@),
                out@.len() == i,
                forall|j: int| 0 <= j < i ==> #[trigger] out@[j].0@ == self.entries@[j].0@,
                forall|j: int| 0 <= j < i ==> cloned(self.entries@[j].1, #[trigger] out@[j].1),
            decreases n - i,
        {
            let k = self.entries[i].0.clone();
            let v = self.entries[i].1.clone();
            out.push((k, v));
            i = i + 1;
        }
        proof {
            assert forall|a: int, b: int| 0 <= a < b < out@.len() implies str_lt(
                #[trigger] out@[a].0@,
                #[trigger] out@[b].0@,
            ) by {
                assert(str_lt(self.entries@[a].0@, self.entries@[b].0@));
            }
            let m1 = entries_map(out@);
            let m0 = entries_map(self.entries@);
            assert forall|k: Seq<char>| m1.contains_key(k) <==> m0.contains_key(k) by {
                if has_key(out@, k) {
                    let j = choose|j: int| 0 <= j < out@.len() && #[trigger] out@[j].0@ == k;
                    assert(self.entries@[j].0@ == k);
                }
                if has_key(self.entries@, k) {
                    let j = choose|j: int| 0 <= j < self.entries@.len() && #[trigger] self.entries@[j].0@ == k;
                    assert(out@[j].0@ == k);
                }
            }
            assert(m1.dom() =~= m0.dom());
            assert forall|k: Seq<char>| #[trigger] m0.contains_key(k) implies cloned(m0[k], m1[k]) by {
                let j = choose|j: int| 0 <= j < self.entries@.len() && #[trigger] self.entries@[j].0@ == k;
                lemma_entries_map_at(self.entries@, j);
                lemma_entries_map_at(out@, j);
            }
        }
        KeyedMap { entries: out }
    }
}

} // verus!
