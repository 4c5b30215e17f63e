//! A small map keyed by strings, kept as a list of distinct keys.
use vstd::prelude::*;

verus! {

broadcast use vstd::string::group_string_axioms;

/// Whether some entry of `s` has key `k`.
pub open spec fn has_entry<V>(s: Seq<(Seq<char>, V)>, k: Seq<char>) -> bool {
    exists|i: int| 0 <= i < s.len() && (#[trigger] s[i]).0 == k
}

/// No two entries of `s` share a key.
pub open spec fn distinct_keys<V>(s: Seq<(Seq<char>, V)>) -> bool {
    forall|i: int, j: int| 0 <= i < j < s.len() ==> (#[trigger] s[i]).0 != (#[trigger] s[j]).0
}

/// The map that the entries of `s` spell out.
pub open spec fn map_of<V>(s: Seq<(Seq<char>, V)>) -> Map<Seq<char>, V>
    decreases s.len(),
{
    if s.len() == 0 {
        Map::empty()
    } else {
        map_of(s.drop_last()).insert(s.last().0, s.last().1)
    }
}

/// The keys of `map_of(s)` are those of its entries, and each entry's value
/// is found under its key.
pub proof fn lemma_map_of<V>(s: Seq<(Seq<char>, V)>)
    requires
        distinct_keys(s),
    ensures
        forall|k: Seq<char>| #[trigger] map_of(s).contains_key(k) <==> has_entry(s, k),
        forall|i: int| 0 <= i < s.len() ==> #[trigger] map_of(s)[s[i].0] == s[i].1,
    decreases s.len(),
{
    if s.len() > 0 {
        let d = s.drop_last();
        assert(distinct_keys(d)) by {
            assert forall|i: int, j: int| 0 <= i < j < d.len() implies (#[trigger] d[i]).0
                != (#[trigger] d[j]).0 by {
                assert(d[i] == s[i] && d[j] == s[j]);
            }
        }
        lemma_map_of(d);
        assert forall|k: Seq<char>| #[trigger] map_of(s).contains_key(k) <==> has_entry(s, k) by {
            assert(map_of(s) == map_of(d).insert(s.last().0, s.last().1));
            assert(map_of(d).contains_key(k) <==> has_entry(d, k));
            if has_entry(d, k) {
                let i = choose|i: int| 0 <= i < d.len() && (#[trigger] d[i]).0 == k;
                assert(s[i] == d[i]);
            }
            if k == s.last().0 {
                assert(s[s.len() - 1].0 == k);
            }
            if has_entry(s, k) && k != s.last().0 {
                let i = choose|i: int| 0 <= i < s.len() && (#[trigger] s[i]).0 == k;
                assert(i < s.len() - 1);
                assert(d[i] == s[i]);
            }
        }
        assert forall|i: int| 0 <= i < s.len() implies #[trigger] map_of(s)[s[i].0] == s[i].1 by {
            if i < s.len() - 1 {
                assert(d[i] == s[i]);
                assert(s[i].0 != s[s.len() - 1].0);
                assert(map_of(d)[d[i].0] == d[i].1);
            }
        }
    }
}

/// Entries with their keys taken as characters.
pub open spec fn pairs_of<V>(v: Seq<(String, V)>) -> Seq<(Seq<char>, V)> {
    v.map_values(|e: (String, V)| (e.0@, e.1))
}

/// A map from strings to values of `V`, held as a list of entries with
/// distinct keys.
///
/// It stands where a `HashMap<String, V>` would: vstd specifies `HashMap`'s
/// methods only for key types known to obey its key model
/// (`obeys_key_model`), which it states for integers, `bool` and their boxes
/// but not for `String`, and that fact can only be assumed, not proved. The
/// maps it holds (per-application rules, renamed application ids, cached
/// icons and process ids) are small, so a list costs little.
pub struct StrMap<V> {
    entries: Vec<(String, V)>,
}

impl<V> StrMap<V> {
    /// The entries, keys taken as characters, in the order they are held.
    pub closed spec fn pairs(&self) -> Seq<(Seq<char>, V)> {
        pairs_of(self.entries@)
    }

    /// No key is held twice.
    #[verifier::type_invariant]
    pub closed spec fn inv(&self) -> bool {
        distinct_keys(self.pairs())
    }

    /// The held entries spell out the map, each key once.
    pub proof fn lemma_pairs(&self)
        requires
            self.inv(),
        ensures
            distinct_keys(self.pairs()),
            self@ == map_of(self.pairs()),
            forall|k: Seq<char>| #[trigger] self@.contains_key(k) <==> has_entry(self.pairs(), k),
            forall|i: int|
                0 <= i < self.pairs().len() ==> #[trigger] self@[self.pairs()[i].0]
                    == self.pairs()[i].1,
    {
        lemma_map_of(self.pairs());
    }

    /// An empty map.
    pub fn new() -> (m: Self)
        ensures
            m@ == Map::<Seq<char>, V>::empty(),
            m.pairs().len() == 0,
    {
        let m = StrMap { entries: Vec::new() };
        proof {
            assert(m.pairs() =~= Seq::empty());
        }
        m
    }

    /// The number of entries.
    pub fn len(&self) -> (n: usize)
        ensures
            n == self.pairs().len(),
    {
        self.entries.len()
    }

    /// The key of the `i`-th entry.
    pub fn key_at(&self, i: usize) -> (k: &String)
        requires
            i < self.pairs().len(),
        ensures
            k@ == self.pairs()[i as int].0,
    {
        &self.entries[i].0
    }

    /// The value of the `i`-th entry.
    pub fn value_at(&self, i: usize) -> (v: &V)
        requires
            i < self.pairs().len(),
        ensures
            *v == self.pairs()[i as int].1,
    {
        &self.entries[i].1
    }

    /// Index of the entry with key `k`.
    fn index_of(&self, k: &String) -> (r: Option<usize>)
        ensures
            match r {
                Some(i) => i < self.pairs().len() && self.pairs()[i as int].0 == k@,
                None => !has_entry(self.pairs(), k@),
            },
    {
        let mut i: usize = 0;
        while i < self.entries.len()
            invariant
                i <= self.entries@.len(),
                forall|j: int| 0 <= j < i ==> (#[trigger] self.pairs()[j]).0 != k@,
            decreases self.entries@.len() - i,
        {
            if self.entries[i].0.eq(k) {
                return Some(i);
            }
            i = i + 1;
        }
        None
    }

    /// The value held under `k`.
    pub fn get(&self, k: &str) -> (r: Option<&V>)
        ensures
            match r {
                Some(v) => self@.contains_key(k@) && *v == self@[k@],
                None => !self@.contains_key(k@),
            },
    {
        proof {
            use_type_invariant(&*self);
            self.lemma_pairs();
        }
        let key = k.to_string();
        match self.index_of(&key) {
            Some(i) => Some(&self.entries[i].1),
            None => None,
        }
    }

    /// Whether a value is held under `k`.
    pub fn contains_key(&self, k: &str) -> (b: bool)
        ensures
            b == self@.contains_key(k@),
    {
        proof {
            use_type_invariant(&*self);
            self.lemma_pairs();
        }
        let key = k.to_string();
        self.index_of(&key).is_some()
    }

    /// Holds `v` under `k`, in place of what was held there.
    pub fn insert(&mut self, k: String, v: V)
        ensures
            final(self)@ == old(self)@.insert(k@, v),
    {
        proof {
            use_type_invariant(&*self);
            self.lemma_pairs();
        }
        let ghost old_pairs = self.pairs();
        let ghost kv = k@;
        match self.index_of(&k) {
            Some(i) => {
                let ghost new_pairs = old_pairs.update(i as int, (kv, v));
                proof {
                    assert(distinct_keys(new_pairs)) by {
                        assert forall|a: int, b: int| 0 <= a < b < new_pairs.len() implies (
                        #[trigger] new_pairs[a]).0 != (#[trigger] new_pairs[b]).0 by {
                            if a != i && b != i {
                                assert(old_pairs[a].0 != old_pairs[b].0);
                            } else if a == i {
                                assert(old_pairs[a].0 != old_pairs[b].0);
                            } else {
                                assert(old_pairs[a].0 != old_pairs[b].0);
                            }
                        }
                    }
                }
                let mut entries = Vec::new();
                std::mem::swap(&mut entries, &mut self.entries);
                entries.set(i, (k, v));
                proof {
                    assert(pairs_of(entries@) =~= new_pairs);
                }
                self.entries = entries;
                proof {
                    assert(self.pairs() =~= new_pairs);
                    lemma_map_of(new_pairs);
                    lemma_map_of(old_pairs);
                    assert(self@ =~= old(self)@.insert(kv, v)) by {
                        assert forall|q: Seq<char>| #[trigger] self@.contains_key(q)
                            == old(self)@.insert(kv, v).contains_key(q) by {
                            if has_entry(old_pairs, q) {
                                let j = choose|j: int|
                                    0 <= j < old_pairs.len() && (#[trigger] old_pairs[j]).0 == q;
                                if j != i {
                                    assert(new_pairs[j] == old_pairs[j]);
                                }
                            }
                            if has_entry(new_pairs, q) {
                                let j = choose|j: int|
                                    0 <= j < new_pairs.len() && (#[trigger] new_pairs[j]).0 == q;
                                if j != i {
                                    assert(new_pairs[j] == old_pairs[j]);
                                }
                            }
                            assert(new_pairs[i as int].0 == kv);
                        }
                        assert forall|q: Seq<char>| #[trigger] self@.contains_key(q) implies self@[q]
                            == old(self)@.insert(kv, v)[q] by {
                            let j = choose|j: int|
                                0 <= j < new_pairs.len() && (#[trigger] new_pairs[j]).0 == q;
                            assert(self@[new_pairs[j].0] == new_pairs[j].1);
                            if j != i {
                                assert(new_pairs[j] == old_pairs[j]);
                            }
                        }
                    }
                }
            },
            None => {
                let mut entries = Vec::new();
                std::mem::swap(&mut entries, &mut self.entries);
                entries.push((k, v));
                proof {
                    assert(pairs_of(entries@) =~= old_pairs.push((kv, v)));
                    assert forall|a: int, b: int| 0 <= a < b < old_pairs.len() + 1 implies (
                    #[trigger] old_pairs.push((kv, v))[a]).0 != (#[trigger] old_pairs.push(
                        (kv, v),
                    )[b]).0 by {
                        if b == old_pairs.len() {
                            assert(old_pairs[a].0 != kv);
                        }
                    }
                }
                self.entries = entries;
                proof {
                    assert(self.pairs() =~= old_pairs.push((kv, v)));
                    assert(self.pairs().drop_last() =~= old_pairs);
                }
            },
        }
    }

    /// Drops what is held under `k`.
    pub fn remove(&mut self, k: &str)
        ensures
            final(self)@ == old(self)@.remove(k@),
    {
        proof {
            use_type_invariant(&*self);
            self.lemma_pairs();
        }
        let ghost old_pairs = self.pairs();
        let key = k.to_string();
        match self.index_of(&key) {
            Some(i) => {
                let ghost new_pairs = old_pairs.remove(i as int);
                proof {
                    assert(distinct_keys(new_pairs)) by {
                        assert forall|a: int, b: int| 0 <= a < b < new_pairs.len() implies (
                        #[trigger] new_pairs[a]).0 != (#[trigger] new_pairs[b]).0 by {
                            let oa = if a < i { a } else { a + 1 };
                            let ob = if b < i { b } else { b + 1 };
                            assert(new_pairs[a] == old_pairs[oa]);
                            assert(new_pairs[b] == old_pairs[ob]);
                        }
                    }
                }
                let mut entries = Vec::new();
                std::mem::swap(&mut entries, &mut self.entries);
                entries.remove(i);
                proof {
                    assert(pairs_of(entries@) =~= new_pairs);
                }
                self.entries = entries;
                proof {
                    assert(self.pairs() =~= new_pairs);
                    lemma_map_of(new_pairs);
                    lemma_map_of(old_pairs);
                    assert(self@ =~= old(self)@.remove(k@)) by {
                        assert forall|q: Seq<char>| #[trigger] self@.contains_key(q)
                            == old(self)@.remove(k@).contains_key(q) by {
                            if has_entry(old_pairs, q) && q != k@ {
                                let j = choose|j: int|
                                    0 <= j < old_pairs.len() && (#[trigger] old_pairs[j]).0 == q;
                                assert(j != i);
                                let nj = if j < i { j } else { j - 1 };
                                assert(new_pairs[nj] == old_pairs[j]);
                            }
                            if has_entry(new_pairs, q) {
                                let j = choose|j: int|
                                    0 <= j < new_pairs.len() && (#[trigger] new_pairs[j]).0 == q;
                                let oj = if j < i { j } else { j + 1 };
                                assert(new_pairs[j] == old_pairs[oj]);
                                assert(oj != i);
                            }
                        }
                        assert forall|q: Seq<char>| #[trigger] self@.contains_key(q) implies self@[q]
                            == old(self)@.remove(k@)[q] by {
                            let j = choose|j: int|
                                0 <= j < new_pairs.len() && (#[trigger] new_pairs[j]).0 == q;
                            let oj = if j < i { j } else { j + 1 };
                            assert(new_pairs[j] == old_pairs[oj]);
                            assert(self@[new_pairs[j].0] == new_pairs[j].1);
                            assert(old(self)@[old_pairs[oj].0] == old_pairs[oj].1);
                        }
                    }
                }
            },
            None => {
                proof {
                    lemma_map_of(old_pairs);
                    assert(self@ =~= old(self)@.remove(k@));
                }
            },
        }
    }
}

impl<V> View for StrMap<V> {
    type V = Map<Seq<char>, V>;

    closed spec fn view(&self) -> Map<Seq<char>, V> {
        map_of(self.pairs())
    }
}

} // verus!
