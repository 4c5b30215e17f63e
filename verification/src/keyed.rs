//! Sequences of records kept in strictly increasing order of a `u64` key,
//! the way an ordered map keyed by id holds its values.
use vstd::prelude::*;

verus! {

/// A record that carries a `u64` key.
pub trait Keyed: Sized {
    spec fn key(&self) -> u64;

    fn get_key(&self) -> (k: u64)
        ensures
            k == self.key(),
    ;
}

/// Keys strictly increase along `s`.
pub open spec fn increasing<T: Keyed>(s: Seq<T>) -> bool {
    forall|i: int, j: int| 0 <= i < j < s.len() ==> s[i].key() < s[j].key()
}

/// `s` with `x` stored under its key: it replaces the record with that key,
/// or is inserted where the order of keys puts it.
pub open spec fn upsert<T: Keyed>(s: Seq<T>, x: T) -> Seq<T>
    decreases s.len(),
{
    if s.len() == 0 {
        seq![x]
    } else if s[0].key() == x.key() {
        seq![x] + s.drop_first()
    } else if x.key() < s[0].key() {
        seq![x] + s
    } else {
        seq![s[0]] + upsert(s.drop_first(), x)
    }
}

/// `s` without the records whose key is `k`.
pub open spec fn remove_key<T: Keyed>(s: Seq<T>, k: u64) -> Seq<T>
    decreases s.len(),
{
    if s.len() == 0 {
        s
    } else if s[0].key() == k {
        remove_key(s.drop_first(), k)
    } else {
        seq![s[0]] + remove_key(s.drop_first(), k)
    }
}

/// The first record of `s` whose key is `k`.
pub open spec fn lookup<T: Keyed>(s: Seq<T>, k: u64) -> Option<T>
    decreases s.len(),
{
    if s.len() == 0 {
        None
    } else if s[0].key() == k {
        Some(s[0])
    } else {
        lookup(s.drop_first(), k)
    }
}

/// The ordered store built from `list` by storing each record in turn, so
/// that of two records with one key the later one stays.
pub open spec fn canonical<T: Keyed>(list: Seq<T>) -> Seq<T>
    decreases list.len(),
{
    if list.len() == 0 {
        Seq::empty()
    } else {
        upsert(canonical(list.drop_last()), list.last())
    }
}

/// The keys present in `s`.
pub open spec fn has_key<T: Keyed>(s: Seq<T>, k: u64) -> bool {
    exists|i: int| 0 <= i < s.len() && s[i].key() == k
}

pub proof fn lemma_upsert_shape<T: Keyed>(s: Seq<T>, x: T, i: int)
    requires
        increasing(s),
        0 <= i <= s.len(),
        forall|j: int| 0 <= j < i ==> s[j].key() < x.key(),
        i < s.len() ==> x.key() <= s[i].key(),
    ensures
        i < s.len() && s[i].key() == x.key() ==> upsert(s, x) == s.update(i, x),
        !(i < s.len() && s[i].key() == x.key()) ==> upsert(s, x) == s.insert(i, x),
    decreases s.len(),
{
    if s.len() == 0 {
        assert(s.insert(i, x) =~= seq![x]);
    } else if i == 0 {
        if s[0].key() == x.key() {
            assert(seq![x] + s.drop_first() =~= s.update(0, x));
        } else {
            assert(seq![x] + s =~= s.insert(0, x));
        }
    } else {
        let t = s.drop_first();
        assert(increasing(t));
        lemma_upsert_shape(t, x, i - 1);
        if i < s.len() && s[i].key() == x.key() {
            assert(seq![s[0]] + t.update(i - 1, x) =~= s.update(i, x));
        } else {
            assert(seq![s[0]] + t.insert(i - 1, x) =~= s.insert(i, x));
        }
    }
}

pub proof fn lemma_upsert_keys<T: Keyed>(s: Seq<T>, x: T)
    requires
        increasing(s),
    ensures
        increasing(upsert(s, x)),
        forall|k: u64| #[trigger] lookup(upsert(s, x), k) == if k == x.key() {
            Some(x)
        } else {
            lookup(s, k)
        },
        forall|k: u64| #[trigger] has_key(upsert(s, x), k) == (k == x.key() || has_key(s, k)),
    decreases s.len(),
{
    let u = upsert(s, x);
    if s.len() == 0 {
        assert forall|k: u64| #[trigger] has_key(u, k) == (k == x.key() || has_key(s, k)) by {
            if k == x.key() {
                assert(u[0].key() == k);
            }
        }
        assert forall|k: u64| #[trigger] lookup(u, k) == if k == x.key() {
            Some(x)
        } else {
            lookup(s, k)
        } by {
            assert(u[0] == x);
            assert(u.drop_first().len() == 0);
            assert(lookup(u.drop_first(), k) == None::<T>);
        }
    } else {
        let t = s.drop_first();
        assert(increasing(t));
        lemma_upsert_keys(t, x);
        lemma_lookup_first_key(s);
        if s[0].key() == x.key() {
            assert(u.drop_first() =~= t);
            assert forall|k: u64| #[trigger] has_key(u, k) == (k == x.key() || has_key(s, k)) by {
                lemma_has_key_cons(u, k);
                lemma_has_key_cons(s, k);
            }
            assert forall|k: u64| #[trigger] lookup(u, k) == if k == x.key() {
                Some(x)
            } else {
                lookup(s, k)
            } by {
                assert(u[0] == x);
            }
        } else if x.key() < s[0].key() {
            assert(u.drop_first() =~= s);
            assert forall|k: u64| #[trigger] has_key(u, k) == (k == x.key() || has_key(s, k)) by {
                lemma_has_key_cons(u, k);
            }
            assert forall|k: u64| #[trigger] lookup(u, k) == if k == x.key() {
                Some(x)
            } else {
                lookup(s, k)
            } by {
                assert(u[0] == x);
            }
            assert forall|i: int, j: int| 0 <= i < j < u.len() implies u[i].key() < u[j].key() by {
                if i > 0 {
                    assert(u[i] == s[i - 1]);
                }
                assert(u[j] == s[j - 1]);
            }
        } else {
            let ut = upsert(t, x);
            assert(u.drop_first() =~= ut);
            assert forall|k: u64| #[trigger] has_key(u, k) == (k == x.key() || has_key(s, k)) by {
                lemma_has_key_cons(u, k);
                lemma_has_key_cons(s, k);
            }
            assert forall|k: u64| #[trigger] lookup(u, k) == if k == x.key() {
                Some(x)
            } else {
                lookup(s, k)
            } by {
                assert(u[0] == s[0]);
                assert(lookup(ut, k) == if k == x.key() { Some(x) } else { lookup(t, k) });
            }
            assert forall|i: int, j: int| 0 <= i < j < u.len() implies u[i].key() < u[j].key() by {
                if i == 0 {
                    assert(has_key(ut, u[j].key())) by {
                        assert(ut[j - 1] == u[j]);
                    }
                    if u[j].key() != x.key() {
                        let m = choose|m: int| 0 <= m < t.len() && t[m].key() == u[j].key();
                        assert(t[m] == s[m + 1]);
                    }
                } else {
                    assert(u[i] == ut[i - 1]);
                    assert(u[j] == ut[j - 1]);
                }
            }
        }
    }
}

proof fn lemma_has_key_cons<T: Keyed>(s: Seq<T>, k: u64)
    requires
        s.len() > 0,
    ensures
        has_key(s, k) == (s[0].key() == k || has_key(s.drop_first(), k)),
{
    if has_key(s, k) && s[0].key() != k {
        let i = choose|i: int| 0 <= i < s.len() && s[i].key() == k;
        assert(s.drop_first()[i - 1] == s[i]);
    }
    if has_key(s.drop_first(), k) {
        let i = choose|i: int| 0 <= i < s.len() - 1 && s.drop_first()[i].key() == k;
        assert(s[i + 1] == s.drop_first()[i]);
    }
}

proof fn lemma_lookup_first_key<T: Keyed>(s: Seq<T>)
    requires
        s.len() > 0,
    ensures
        lookup(s, s[0].key()) == Some(s[0]),
{
}

/// In an increasing sequence, the record looked up under a key is the one at
/// the index that carries it.
pub proof fn lemma_lookup_index<T: Keyed>(s: Seq<T>, i: int)
    requires
        increasing(s),
        0 <= i < s.len(),
    ensures
        lookup(s, s[i].key()) == Some(s[i]),
    decreases s.len(),
{
    if i > 0 {
        let t = s.drop_first();
        assert(increasing(t));
        lemma_lookup_index(t, i - 1);
        assert(t[i - 1] == s[i]);
    }
}

/// A key absent from `s` is looked up as nothing.
pub proof fn lemma_lookup_absent<T: Keyed>(s: Seq<T>, k: u64)
    requires
        !has_key(s, k),
    ensures
        lookup(s, k) is None,
    decreases s.len(),
{
    if s.len() > 0 {
        lemma_has_key_cons(s, k);
        lemma_lookup_absent(s.drop_first(), k);
    }
}

pub proof fn lemma_remove_key_shape<T: Keyed>(s: Seq<T>, k: u64, i: int)
    requires
        increasing(s),
        0 <= i <= s.len(),
        forall|j: int| 0 <= j < i ==> s[j].key() != k,
        i < s.len() ==> s[i].key() == k,
    ensures
        i < s.len() ==> remove_key(s, k) == s.remove(i),
        i == s.len() ==> remove_key(s, k) == s,
    decreases s.len(),
{
    if s.len() == 0 {
    } else if i == 0 {
        let t = s.drop_first();
        assert(increasing(t));
        lemma_remove_key_shape(t, k, t.len() as int);
        assert(s.remove(0) =~= t);
    } else {
        let t = s.drop_first();
        assert(increasing(t));
        lemma_remove_key_shape(t, k, i - 1);
        if i < s.len() {
            assert(seq![s[0]] + t.remove(i - 1) =~= s.remove(i));
        } else {
            assert(seq![s[0]] + t =~= s);
        }
    }
}

pub proof fn lemma_remove_key_props<T: Keyed>(s: Seq<T>, k: u64)
    requires
        increasing(s),
    ensures
        increasing(remove_key(s, k)),
        forall|m: u64| #[trigger] has_key(remove_key(s, k), m) == (m != k && has_key(s, m)),
        forall|m: u64| m != k ==> #[trigger] lookup(remove_key(s, k), m) == lookup(s, m),
    decreases s.len(),
{
    if s.len() > 0 {
        let t = s.drop_first();
        assert(increasing(t));
        lemma_remove_key_props(t, k);
        let r = remove_key(s, k);
        let rt = remove_key(t, k);
        assert forall|m: u64| #[trigger] has_key(r, m) == (m != k && has_key(s, m)) by {
            lemma_has_key_cons(s, m);
            if s[0].key() != k {
                assert(r.drop_first() =~= rt);
                lemma_has_key_cons(r, m);
            }
        }
        assert forall|m: u64| m != k implies #[trigger] lookup(r, m) == lookup(s, m) by {
            assert(lookup(rt, m) == lookup(t, m));
            if s[0].key() != k {
                assert(r.drop_first() =~= rt);
                assert(r[0] == s[0]);
            }
        }
        if s[0].key() != k {
            assert(r.drop_first() =~= rt);
            assert forall|i: int, j: int| 0 <= i < j < r.len() implies r[i].key() < r[j].key() by {
                if i == 0 {
                    assert(has_key(rt, r[j].key())) by {
                        assert(rt[j - 1] == r[j]);
                    }
                    let m = choose|m: int| 0 <= m < t.len() && t[m].key() == r[j].key();
                    assert(t[m] == s[m + 1]);
                    assert(s[0].key() < s[m + 1].key());
                } else {
                    assert(r[i] == rt[i - 1]);
                    assert(r[j] == rt[j - 1]);
                }
            }
        }
    }
}

/// Index of the first record whose key is at least `k`.
pub fn position_for<T: Keyed>(v: &Vec<T>, k: u64) -> (i: usize)
    requires
        increasing(v@),
    ensures
        i <= v.len(),
        forall|j: int| 0 <= j < i ==> v@[j].key() < k,
        i < v.len() ==> k <= v@[i as int].key(),
{
    let mut i: usize = 0;
    while i < v.len()
        invariant
            i <= v.len(),
            forall|j: int| 0 <= j < i ==> v@[j].key() < k,
        decreases v.len() - i,
    {
        if v[i].get_key() >= k {
            return i;
        }
        i = i + 1;
    }
    i
}

/// Stores `x` under its key; returns the record it replaced.
pub fn store<T: Keyed>(v: &mut Vec<T>, x: T) -> (prev: Option<T>)
    requires
        increasing(old(v)@),
    ensures
        final(v)@ == upsert(old(v)@, x),
        increasing(final(v)@),
        prev == lookup(old(v)@, x.key()),
{
    let ghost s = v@;
    let ghost xk = x.key();
    let k = x.get_key();
    let i = position_for(v, k);
    proof {
        lemma_upsert_shape(s, x, i as int);
        lemma_upsert_keys(s, x);
    }
    if i < v.len() && v[i].get_key() == k {
        proof {
            lemma_lookup_index(s, i as int);
        }
        let old_x = v.remove(i);
        v.insert(i, x);
        proof {
            assert(v@ =~= s.update(i as int, x));
        }
        Some(old_x)
    } else {
        proof {
            assert(!has_key(s, xk)) by {
                if has_key(s, xk) {
                    let j = choose|j: int| 0 <= j < s.len() && s[j].key() == xk;
                    if j >= i {
                        assert(s[i as int].key() <= s[j].key());
                    }
                }
            }
            lemma_lookup_absent(s, xk);
        }
        v.insert(i, x);
        None
    }
}

/// Removes the record stored under `k`, if any.
pub fn discard<T: Keyed>(v: &mut Vec<T>, k: u64)
    requires
        increasing(old(v)@),
    ensures
        final(v)@ == remove_key(old(v)@, k),
        increasing(final(v)@),
{
    let ghost s = v@;
    let i = position_for(v, k);
    if i < v.len() && v[i].get_key() == k {
        proof {
            lemma_remove_key_shape(s, k, i as int);
            lemma_remove_key_props(s, k);
        }
        v.remove(i);
    } else {
        proof {
            assert forall|j: int| 0 <= j < s.len() implies s[j].key() != k by {
                if j >= i {
                    assert(s[i as int].key() <= s[j].key());
                }
            }
            lemma_remove_key_shape(s, k, s.len() as int);
        }
    }
}

/// Index of the record stored under `k`, if any.
pub fn find_index<T: Keyed>(v: &Vec<T>, k: u64) -> (r: Option<usize>)
    requires
        increasing(v@),
    ensures
        match r {
            Some(i) => i < v.len() && v@[i as int].key() == k && lookup(v@, k) == Some(v@[i as int]),
            None => !has_key(v@, k) && lookup(v@, k) is None,
        },
{
    let i = position_for(v, k);
    if i < v.len() && v[i].get_key() == k {
        proof {
            lemma_lookup_index(v@, i as int);
        }
        Some(i)
    } else {
        proof {
            assert(!has_key(v@, k)) by {
                if has_key(v@, k) {
                    let j = choose|j: int| 0 <= j < v@.len() && v@[j].key() == k;
                    if j >= i {
                        assert(v@[i as int].key() <= v@[j].key());
                    }
                }
            }
            lemma_lookup_absent(v@, k);
        }
        None
    }
}

/// The ordered store of `list`, later records winning over earlier ones with
/// the same key.
pub fn canonicalize<T: Keyed>(list: Vec<T>) -> (v: Vec<T>)
    ensures
        v@ == canonical(list@),
        increasing(v@),
{
    let ghost l = list@;
    let mut v: Vec<T> = Vec::new();
    for x in it: list
        invariant
            it.seq() == l,
            v@ == canonical(l.take(it.index() as int)),
            increasing(v@),
    {
        proof {
            let n = it.index() as int;
            assert(l.take(n + 1).drop_last() =~= l.take(n));
            assert(l.take(n + 1).last() == x);
        }
        store(&mut v, x);
    }
    proof {
        assert(l.take(l.len() as int) =~= l);
    }
    v
}

/// Every record of `upsert(s, x)` is `x` or a record of `s`.
pub proof fn lemma_upsert_members<T: Keyed>(s: Seq<T>, x: T)
    ensures
        forall|i: int|
            0 <= i < upsert(s, x).len() ==> #[trigger] upsert(s, x)[i] == x || s.contains(
                upsert(s, x)[i],
            ),
    decreases s.len(),
{
    let u = upsert(s, x);
    if s.len() > 0 {
        let t = s.drop_first();
        lemma_upsert_members(t, x);
        assert forall|i: int| 0 <= i < u.len() implies #[trigger] u[i] == x || s.contains(u[i]) by {
            if s[0].key() == x.key() {
                if i > 0 {
                    assert(u[i] == s[i]);
                }
            } else if x.key() < s[0].key() {
                if i > 0 {
                    assert(u[i] == s[i - 1]);
                }
            } else {
                if i == 0 {
                    assert(u[0] == s[0]);
                } else {
                    let ut = upsert(t, x);
                    assert(u[i] == ut[i - 1]);
                    if ut[i - 1] != x {
                        let m = choose|m: int| 0 <= m < t.len() && t[m] == ut[i - 1];
                        assert(s[m + 1] == t[m]);
                    }
                }
            }
        }
    }
}

/// Every record of `canonical(list)` is a record of `list`.
pub proof fn lemma_canonical_members<T: Keyed>(list: Seq<T>)
    ensures
        forall|i: int|
            0 <= i < canonical(list).len() ==> list.contains(#[trigger] canonical(list)[i]),
        increasing(canonical(list)),
    decreases list.len(),
{
    if list.len() > 0 {
        let d = list.drop_last();
        lemma_canonical_members(d);
        let c = canonical(d);
        lemma_upsert_members(c, list.last());
        lemma_upsert_keys(c, list.last());
        let u = canonical(list);
        assert forall|i: int| 0 <= i < u.len() implies list.contains(#[trigger] u[i]) by {
            if u[i] == list.last() {
                assert(list[list.len() - 1] == u[i]);
            } else {
                let m = choose|m: int| 0 <= m < c.len() && c[m] == u[i];
                let n = choose|n: int| 0 <= n < d.len() && d[n] == c[m];
                assert(list[n] == d[n]);
            }
        }
    }
}

/// Every record of `remove_key(s, k)` is a record of `s`.
pub proof fn lemma_remove_key_members<T: Keyed>(s: Seq<T>, k: u64)
    ensures
        forall|i: int|
            0 <= i < remove_key(s, k).len() ==> s.contains(#[trigger] remove_key(s, k)[i]),
    decreases s.len(),
{
    if s.len() > 0 {
        let t = s.drop_first();
        lemma_remove_key_members(t, k);
        let r = remove_key(s, k);
        let rt = remove_key(t, k);
        assert forall|i: int| 0 <= i < r.len() implies s.contains(#[trigger] r[i]) by {
            if s[0].key() == k {
                let m = choose|m: int| 0 <= m < t.len() && t[m] == rt[i];
                assert(s[m + 1] == t[m]);
            } else if i == 0 {
                assert(s[0] == r[0]);
            } else {
                assert(r[i] == rt[i - 1]);
                let m = choose|m: int| 0 <= m < t.len() && t[m] == rt[i - 1];
                assert(s[m + 1] == t[m]);
            }
        }
    }
}

} // verus!
