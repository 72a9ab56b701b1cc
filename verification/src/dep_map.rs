//! A map from package names to values, kept as a list of entries whose
//! names are pairwise distinct. Its view is a `Map` from the names' texts.
use crate::text::str_equal;
use vstd::prelude::*;

verus! {

/// A map keyed by package name.
pub struct DepMap<V> {
    entries: Vec<(String, V)>,
}

impl<V> DepMap<V> {
    /// No name occurs twice among the entries.
    #[verifier::type_invariant]
    spec fn names_distinct(self) -> bool {
        entries_distinct(self.entries@)
    }

    /// The entries, in the order in which they are kept.
    pub closed spec fn entry_seq(&self) -> Seq<(String, V)> {
        self.entries@
    }

    /// The empty map.
    pub fn new() -> (res: Self)
        ensures
            res@ == Map::<Seq<char>, V>::empty(),
            res.entry_seq().len() == 0,
    {
        let res = DepMap { entries: Vec::new() };
        assert(res@ =~= Map::<Seq<char>, V>::empty());
        res
    }

    /// The number of entries.
    pub fn len(&self) -> (res: usize)
        ensures
            res == self.entry_seq().len(),
    {
        self.entries.len()
    }

    /// The entry at position `i`.
    pub fn entry(&self, i: usize) -> (res: (&String, &V))
        requires
            i < self.entry_seq().len(),
        ensures
            *res.0 == self.entry_seq()[i as int].0,
            *res.1 == self.entry_seq()[i as int].1,
            self@.contains_key(res.0@),
            self@[res.0@] == *res.1,
    {
        proof {
            use_type_invariant(self);
            lemma_view_of_at(self.entries@, i as int);
        }
        let e = &self.entries[i];
        (&e.0, &e.1)
    }

    /// The position of the entry named `k`, if any.
    fn position(&self, k: &str) -> (res: Option<usize>)
        ensures
            match res {
                Some(i) => i < self.entries@.len() && self.entries@[i as int].0@ == k@,
                None => forall|i: int| 0 <= i < self.entries@.len() ==> self.entries@[i].0@ != k@,
            },
    {
        let mut i: usize = 0;
        while i < self.entries.len()
            invariant
                i <= self.entries@.len(),
                forall|j: int| 0 <= j < i ==> self.entries@[j].0@ != k@,
            decreases self.entries@.len() - i,
        {
            if str_equal(self.entries[i].0.as_str(), k) {
                return Some(i);
            }
            i = i + 1;
        }
        None
    }

    /// Whether an entry is named `k`.
    pub fn contains_key(&self, k: &str) -> (res: bool)
        ensures
            res == self@.contains_key(k@),
    {
        match self.position(k) {
            Some(i) => {
                proof {
                    use_type_invariant(self);
                    lemma_view_of_at(self.entries@, i as int);
                }
                true
            },
            None => {
                assert(!entries_have(self.entries@, k@));
                false
            },
        }
    }

    /// The value of the entry named `k`.
    pub fn get(&self, k: &str) -> (res: Option<&V>)
        ensures
            match res {
                Some(v) => self@.contains_key(k@) && *v == self@[k@],
                None => !self@.contains_key(k@),
            },
    {
        match self.position(k) {
            Some(i) => {
                proof {
                    use_type_invariant(self);
                    lemma_view_of_at(self.entries@, i as int);
                }
                Some(&self.entries[i].1)
            },
            None => {
                assert(!entries_have(self.entries@, k@));
                None
            },
        }
    }

    /// Sets the value of `k`, adding an entry when none is named `k`.
    pub fn insert(&mut self, k: String, v: V)
        ensures
            final(self)@ == old(self)@.insert(k@, v),
    {
        proof {
            use_type_invariant(&*self);
        }
        let ghost before = self.entries@;
        let ghost kv = k@;
        let ghost vv = v;
        let pos = self.position(k.as_str());
        let mut entries = Vec::new();
        std::mem::swap(&mut entries, &mut self.entries);
        match pos {
            Some(i) => {
                entries.set(i, (k, v));
            },
            None => {
                entries.push((k, v));
            },
        }
        proof {
            let after = entries@;
            assert forall|a: int, b: int|
                0 <= a < b < after.len() implies #[trigger] after[a].0@ != #[trigger] after[b].0@ by {
                if b < before.len() {
                    assert(before[a].0@ != before[b].0@);
                }
            }
            assert forall|n: Seq<char>| n != kv implies (entries_have(after, n) <==> entries_have(before, n)) by {
                if entries_have(after, n) {
                    let j = choose|j: int| 0 <= j < after.len() && #[trigger] after[j].0@ == n;
                    assert(before[j].0@ == n);
                }
                if entries_have(before, n) {
                    let j = choose|j: int| 0 <= j < before.len() && #[trigger] before[j].0@ == n;
                    assert(after[j].0@ == n);
                }
            }
            let j0 = match pos { Some(i) => i as int, None => before.len() as int };
            assert(after[j0].0@ == kv);
            lemma_view_of_at(after, j0);
            assert forall|n: Seq<char>| n != kv && entries_have(before, n) implies view_of(after)[n]
                == view_of(before)[n] by {
                let j = choose|j: int| 0 <= j < before.len() && #[trigger] before[j].0@ == n;
                lemma_view_of_at(before, j);
                assert(after[j] == before[j]);
                lemma_view_of_at(after, j);
            }
            assert(view_of(after) =~= view_of(before).insert(kv, vv));
        }
        self.entries = entries;
    }

    /// Removes the entry named `k`, if there is one.
    pub fn remove(&mut self, k: &str)
        ensures
            final(self)@ == old(self)@.remove(k@),
    {
        proof {
            use_type_invariant(&*self);
        }
        let ghost before = self.entries@;
        match self.position(k) {
            Some(i) => {
                let mut entries = Vec::new();
                std::mem::swap(&mut entries, &mut self.entries);
                entries.remove(i);
                proof {
                    let after = entries@;
                    assert(after =~= before.remove(i as int));
                    assert forall|a: int, b: int|
                        0 <= a < b < after.len() implies #[trigger] after[a].0@ != #[trigger] after[b].0@ by {
                        if a < i && b < i {
                            assert(before[a].0@ != before[b].0@);
                        } else if a < i {
                            assert(before[a].0@ != before[b + 1].0@);
                        } else {
                            assert(before[a + 1].0@ != before[b + 1].0@);
                        }
                    }
                    assert forall|n: Seq<char>| entries_have(after, n) <==> (entries_have(before, n) && n != k@) by {
                        if entries_have(after, n) {
                            let j = choose|j: int| 0 <= j < after.len() && #[trigger] after[j].0@ == n;
                            if j < i {
                                assert(before[j].0@ == n);
                                assert(before[j].0@ != before[i as int].0@);
                            } else {
                                assert(before[j + 1].0@ == n);
                                assert(before[i as int].0@ != before[j + 1].0@);
                            }
                        }
                        if entries_have(before, n) && n != k@ {
                            let j = choose|j: int| 0 <= j < before.len() && #[trigger] before[j].0@ == n;
                            if j < i {
                                assert(after[j].0@ == n);
                            } else {
                                assert(after[j - 1].0@ == n);
                            }
                        }
                    }
                    assert forall|n: Seq<char>| entries_have(after, n) implies view_of(after)[n] == view_of(before)[n] by {
                        let j = choose|j: int| 0 <= j < after.len() && #[trigger] after[j].0@ == n;
                        lemma_view_of_at(after, j);
                        if j < i {
                            lemma_view_of_at(before, j);
                        } else {
                            lemma_view_of_at(before, j + 1);
                        }
                    }
                    assert(view_of(after) =~= view_of(before).remove(k@));
                }
                self.entries = entries;
            },
            None => {
                proof {
                    assert(!entries_have(before, k@));
                    assert(view_of(before) =~= view_of(before).remove(k@));
                }
            },
        }
    }

    /// The names of the entries, as owned texts, in order: each name of
    /// the map exactly once.
    pub fn keys(&self) -> (res: Vec<String>)
        ensures
            res@.len() == self.entry_seq().len(),
            forall|i: int| 0 <= i < res@.len() ==> res@[i] == self.entry_seq()[i].0,
            forall|i: int| 0 <= i < res@.len() ==> self@.contains_key(#[trigger] res@[i]@),
            forall|k: Seq<char>| #[trigger] self@.contains_key(k) ==> exists|i: int|
                0 <= i < res@.len() && #[trigger] res@[i]@ == k,
            forall|i: int, j: int| 0 <= i < j < res@.len() ==> res@[i]@ != res@[j]@,
    {
        proof {
            use_type_invariant(self);
        }
        let mut res = Vec::new();
        let mut i: usize = 0;
        while i < self.entries.len()
            invariant
                i <= self.entries@.len(),
                res@.len() == i,
                forall|j: int| 0 <= j < i ==> res@[j] == self.entries@[j].0,
            decreases self.entries@.len() - i,
        {
            res.push(self.entries[i].0.clone());
            i = i + 1;
        }
        proof {
            let s = self.entries@;
            assert forall|i: int| 0 <= i < res@.len() implies self@.contains_key(#[trigger] res@[i]@) by {
                lemma_view_of_at(s, i);
            }
            assert forall|k: Seq<char>| #[trigger] self@.contains_key(k) implies exists|i: int|
                0 <= i < res@.len() && #[trigger] res@[i]@ == k by {
                let j = choose|j: int| 0 <= j < s.len() && #[trigger] s[j].0@ == k;
                assert(res@[j]@ == k);
            }
            assert forall|i: int, j: int| 0 <= i < j < res@.len() implies res@[i]@ != res@[j]@ by {
                assert(s[i].0@ != s[j].0@);
            }
        }
        res
    }

}

/// Whether some entry of `s` is named `k`.
pub open spec fn entries_have<V>(s: Seq<(String, V)>, k: Seq<char>) -> bool {
    exists|i: int| 0 <= i < s.len() && #[trigger] s[i].0@ == k
}

/// No name occurs twice in `s`.
pub open spec fn entries_distinct<V>(s: Seq<(String, V)>) -> bool {
    forall|i: int, j: int| 0 <= i < j < s.len() ==> #[trigger] s[i].0@ != #[trigger] s[j].0@
}

/// The map that a list of entries stands for.
pub open spec fn view_of<V>(s: Seq<(String, V)>) -> Map<Seq<char>, V> {
    Map::new(
        |k: Seq<char>| entries_have(s, k),
        |k: Seq<char>| s[choose|i: int| 0 <= i < s.len() && #[trigger] s[i].0@ == k].1,
    )
}

/// In a list of entries with distinct names, the map sends each entry's
/// name to that entry's value.
pub proof fn lemma_view_of_at<V>(s: Seq<(String, V)>, i: int)
    requires
        entries_distinct(s),
        0 <= i < s.len(),
    ensures
        view_of(s).contains_key(s[i].0@),
        view_of(s)[s[i].0@] == s[i].1,
{
    let k = s[i].0@;
    assert(entries_have(s, k));
    let j = choose|j: int| 0 <= j < s.len() && #[trigger] s[j].0@ == k;
    if j < i {
        assert(s[j].0@ != s[i].0@);
    } else if i < j {
        assert(s[i].0@ != s[j].0@);
    }
}

impl<V> View for DepMap<V> {
    type V = Map<Seq<char>, V>;

    closed spec fn view(&self) -> Map<Seq<char>, V> {
        view_of(self.entries@)
    }
}

} // verus!
