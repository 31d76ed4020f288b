//! A small association-table library: vectors of entries addressed by a pair
//! of `u64` keys, looked up by first match, plus distinct address lists used
//! for the role sets. All ledger mappings of the contract (claim balances,
//! royalty balances, creator records) are stored this way, so their common
//! lookup and update reasoning lives here.

use vstd::prelude::*;

verus! {

/// An entry that can be stored in a keyed table.
pub trait Keyed: Sized {
    /// The pair of keys under which this entry is filed.
    spec fn key(&self) -> (u64, u64);

    /// Executable access to the same pair of keys.
    fn key_of(&self) -> (r: (u64, u64))
        ensures
            r == self.key(),
    ;
}

/// First entry of `s` filed under `k`, if any.
pub open spec fn lookup<T: Keyed>(s: Seq<T>, k: (u64, u64)) -> Option<T>
    decreases s.len(),
{
    if s.len() == 0 {
        None
    } else if s[0].key() == k {
        Some(s[0])
    } else {
        lookup(s.drop_first(), k)
    }
}

/// Whether some entry of `s` is filed under `k`.
pub open spec fn has_key<T: Keyed>(s: Seq<T>, k: (u64, u64)) -> bool {
    lookup(s, k) is Some
}

/// Replacing the first entry filed under `e.key()` leaves every other key's
/// lookup unchanged.
pub proof fn lemma_lookup_update_other<T: Keyed>(s: Seq<T>, i: int, e: T, k: (u64, u64))
    requires
        0 <= i < s.len(),
        s[i].key() == e.key(),
        k != e.key(),
    ensures
        lookup(s.update(i, e), k) == lookup(s, k),
    decreases s.len(),
{
    let t = s.update(i, e);
    assert(t.len() == s.len());
    if i == 0 {
        assert(t[0] == e);
        assert(s[0].key() == e.key());
        assert(t.drop_first() =~= s.drop_first());
    } else {
        assert(t[0] == s[0]);
        if s[0].key() == k {
        } else {
            assert(t.drop_first() =~= s.drop_first().update(i - 1, e));
            lemma_lookup_update_other(s.drop_first(), i - 1, e, k);
        }
    }
}

/// Replacing the first entry filed under `e.key()` makes `e` the result of
/// looking that key up.
pub proof fn lemma_lookup_update_same<T: Keyed>(s: Seq<T>, i: int, e: T)
    requires
        0 <= i < s.len(),
        s[i].key() == e.key(),
        forall|j: int| 0 <= j < i ==> s[j].key() != e.key(),
    ensures
        lookup(s.update(i, e), e.key()) == Some(e),
    decreases s.len(),
{
    let t = s.update(i, e);
    if i == 0 {
        assert(t[0] == e);
    } else {
        assert(t[0] == s[0]);
        assert(s[0].key() != e.key());
        assert(t.drop_first() =~= s.drop_first().update(i - 1, e));
        assert(forall|j: int| 0 <= j < i - 1 ==> s.drop_first()[j].key() != e.key());
        lemma_lookup_update_same(s.drop_first(), i - 1, e);
    }
}

/// Appending an entry only changes the lookup of its own key, and only when
/// that key was absent.
pub proof fn lemma_lookup_push<T: Keyed>(s: Seq<T>, e: T, k: (u64, u64))
    ensures
        lookup(s.push(e), k) == if lookup(s, k) is Some {
            lookup(s, k)
        } else if k == e.key() {
            Some(e)
        } else {
            None::<T>
        },
    decreases s.len(),
{
    let t = s.push(e);
    if s.len() == 0 {
        assert(t[0] == e);
        assert(t.drop_first() =~= Seq::<T>::empty());
        if e.key() == k {
            assert(lookup(t, k) == Some(e));
        } else {
            assert(lookup(t, k) is None);
        }
    } else {
        assert(t[0] == s[0]);
        assert(t.drop_first() =~= s.drop_first().push(e));
        lemma_lookup_push(s.drop_first(), e, k);
        if s[0].key() == k {
            assert(lookup(t, k) == Some(s[0]));
            assert(lookup(s, k) == Some(s[0]));
        } else {
            assert(lookup(t, k) == lookup(t.drop_first(), k));
            assert(lookup(s, k) == lookup(s.drop_first(), k));
        }
    }
}

/// A key that looks up to nothing is carried by no entry.
pub proof fn lemma_lookup_none<T: Keyed>(s: Seq<T>, k: (u64, u64))
    requires
        lookup(s, k) is None,
    ensures
        forall|j: int| 0 <= j < s.len() ==> s[j].key() != k,
    decreases s.len(),
{
    if s.len() > 0 {
        lemma_lookup_none(s.drop_first(), k);
        assert forall|j: int| 0 <= j < s.len() implies s[j].key() != k by {
            if j > 0 {
                assert(s.drop_first()[j - 1] == s[j]);
            }
        }
    }
}

/// Index of the first entry filed under `k`, if any.
pub fn find_entry<T: Keyed>(v: &Vec<T>, k: (u64, u64)) -> (r: Option<usize>)
    ensures
        match r {
            Some(i) => i < v@.len() && v@[i as int].key() == k && lookup(v@, k) == Some(v@[i as int])
                && forall|j: int| 0 <= j < i ==> v@[j].key() != k,
            None => lookup(v@, k) is None,
        },
{
    let ghost s = v@;
    proof {
        assert(s.skip(0) =~= s);
    }
    let n = v.len();
    let mut i: usize = 0;
    while i < n
        invariant
            i <= n,
            n == s.len(),
            s == v@,
            forall|j: int| 0 <= j < i ==> s[j].key() != k,
            lookup(s, k) == lookup(s.skip(i as int), k),
        decreases n - i,
    {
        let ki = v[i].key_of();
        proof {
            assert(s.skip(i as int)[0] == s[i as int]);
            assert(s.skip(i as int).drop_first() =~= s.skip(i as int + 1));
        }
        if ki.0 == k.0 && ki.1 == k.1 {
            return Some(i);
        }
        i = i + 1;
    }
    proof {
        assert(s.skip(n as int) =~= Seq::<T>::empty());
    }
    None
}

/// Files `e` under its key: replaces the first entry with that key, or
/// appends `e` when the key is absent. Lookups of every other key are
/// unchanged.
pub fn set_entry<T: Keyed>(v: &mut Vec<T>, e: T)
    ensures
        lookup(final(v)@, e.key()) == Some(e),
        forall|k: (u64, u64)| k != e.key() ==> lookup(final(v)@, k) == lookup(old(v)@, k),
        has_key(old(v)@, e.key()) ==> final(v)@.len() == old(v)@.len(),
        !has_key(old(v)@, e.key()) ==> final(v)@ == old(v)@.push(e),
{
    let ghost k = e.key();
    match find_entry(v, e.key_of()) {
        Some(i) => {
            let ghost s = v@;
            let ghost ei = v@[i as int];
            v.set(i, e);
            proof {
                lemma_lookup_update_same(s, i as int, e);
                assert forall|kk: (u64, u64)| kk != k implies lookup(v@, kk) == lookup(s, kk) by {
                    lemma_lookup_update_other(s, i as int, e, kk);
                }
            }
        },
        None => {
            let ghost s = v@;
            v.push(e);
            proof {
                assert forall|kk: (u64, u64)| kk != k implies lookup(v@, kk) == lookup(s, kk) by {
                    lemma_lookup_push(s, e, kk);
                }
                lemma_lookup_push(s, e, k);
            }
        },
    }
}

/// Whether `s` holds no address twice.
pub open spec fn distinct(s: Seq<u64>) -> bool {
    forall|i: int, j: int| 0 <= i < j < s.len() ==> s[i] != s[j]
}

/// Whether the address list `v` contains `a`.
pub fn addr_list_contains(v: &Vec<u64>, a: u64) -> (r: bool)
    ensures
        r == v@.contains(a),
{
    let n = v.len();
    let mut i: usize = 0;
    while i < n
        invariant
            i <= n,
            n == v@.len(),
            forall|j: int| 0 <= j < i ==> v@[j] != a,
        decreases n - i,
    {
        if v[i] == a {
            return true;
        }
        i = i + 1;
    }
    false
}

/// Appends an address that is not yet present; the list stays distinct.
pub fn addr_list_insert(v: &mut Vec<u64>, a: u64)
    requires
        distinct(old(v)@),
        !old(v)@.contains(a),
    ensures
        final(v)@ == old(v)@.push(a),
        distinct(final(v)@),
        forall|x: u64| final(v)@.contains(x) <==> old(v)@.contains(x) || x == a,
        final(v)@.len() == old(v)@.len() + 1,
{
    let ghost s = v@;
    v.push(a);
    proof {
        assert forall|x: u64| v@.contains(x) <==> s.contains(x) || x == a by {
            if v@.contains(x) {
                let i = choose|i: int| 0 <= i < v@.len() && v@[i] == x;
                if i < s.len() {
                    assert(s[i] == x);
                } else {
                    assert(x == a);
                }
            }
            if s.contains(x) {
                let i = choose|i: int| 0 <= i < s.len() && s[i] == x;
                assert(v@[i] == x);
            }
            if x == a {
                assert(v@[s.len() as int] == a);
            }
        }
    }
}

/// Removes the one occurrence of an address from a distinct list.
pub fn addr_list_remove(v: &mut Vec<u64>, a: u64)
    requires
        distinct(old(v)@),
        old(v)@.contains(a),
    ensures
        distinct(final(v)@),
        !final(v)@.contains(a),
        forall|x: u64| x != a ==> (final(v)@.contains(x) <==> old(v)@.contains(x)),
        final(v)@.len() == old(v)@.len() - 1,
{
    let ghost s = v@;
    let n = v.len();
    let mut i: usize = 0;
    while i < n
        invariant
            i <= n,
            n == v@.len(),
            s == v@,
            s == old(v)@,
            distinct(s),
            s.contains(a),
            forall|j: int| 0 <= j < i ==> s[j] != a,
        decreases n - i,
    {
        if v[i] == a {
            let ghost idx = i as int;
            v.remove(i);
            proof {
                assert(v@ =~= s.subrange(0, idx) + s.subrange(idx + 1, s.len() as int));
                assert forall|p: int| 0 <= p < v@.len() implies v@[p] == (if p < idx {
                    s[p]
                } else {
                    s[p + 1]
                }) by {}
                assert forall|x: u64| x != a implies (v@.contains(x) <==> s.contains(x)) by {
                    if v@.contains(x) {
                        let p = choose|p: int| 0 <= p < v@.len() && v@[p] == x;
                        if p < idx {
                            assert(s[p] == x);
                        } else {
                            assert(s[p + 1] == x);
                        }
                    }
                    if s.contains(x) {
                        let p = choose|p: int| 0 <= p < s.len() && s[p] == x;
                        if p < idx {
                            assert(v@[p] == x);
                        } else {
                            assert(p != idx);
                            assert(v@[p - 1] == x);
                        }
                    }
                }
                assert(!v@.contains(a)) by {
                    if v@.contains(a) {
                        let p = choose|p: int| 0 <= p < v@.len() && v@[p] == a;
                        if p < idx {
                            assert(s[p] == a);
                        } else {
                            assert(s[p + 1] == a);
                            assert(s[idx] == a);
                            assert(idx < p + 1 < s.len());
                            assert(s[idx] != s[p + 1]);
                        }
                    }
                }
                assert forall|p: int, q: int| 0 <= p < q < v@.len() implies v@[p] != v@[q] by {
                    let sp = if p < idx { p } else { p + 1 };
                    let sq = if q < idx { q } else { q + 1 };
                    assert(v@[p] == s[sp]);
                    assert(v@[q] == s[sq]);
                    assert(0 <= sp < sq < s.len());
                    assert(s[sp] != s[sq]);
                }
            }
            return;
        }
        i = i + 1;
    }
    proof {
        let p = choose|p: int| 0 <= p < s.len() && s[p] == a;
        assert(false);
    }
}

} // verus!
