//! Listings of values by nonce, in ascending order of the nonces, and the
//! maps that they stand for.

use vstd::prelude::*;

verus! {

/// The nonces grow strictly along `r`, so none occurs twice.
pub open spec fn nonces_ascending<V>(r: Seq<(u128, V)>) -> bool {
    forall|i: int, j: int| 0 <= i < j < r.len() ==> (#[trigger] r[i]).0 < (#[trigger] r[j]).0
}

/// Some entry of `r` has the nonce `n`.
pub open spec fn has_nonce<V>(r: Seq<(u128, V)>, n: u128) -> bool {
    exists|i: int| 0 <= i < r.len() && (#[trigger] r[i]).0 == n
}

/// Where `r` holds the nonce `n`, if it does.
pub open spec fn nonce_index<V>(r: Seq<(u128, V)>, n: u128) -> int {
    choose|i: int| 0 <= i < r.len() && (#[trigger] r[i]).0 == n
}

/// The listing as a map from nonce to value.
pub open spec fn nonce_map<V>(r: Seq<(u128, V)>) -> Map<u128, V> {
    Map::new(|n: u128| has_nonce(r, n), |n: u128| r[nonce_index(r, n)].1)
}

/// In an ascending listing a nonce is found where it stands and nowhere else.
pub proof fn lemma_nonce_index<V>(r: Seq<(u128, V)>, j: int)
    requires
        nonces_ascending(r),
        0 <= j < r.len(),
    ensures
        has_nonce(r, r[j].0),
        nonce_index(r, r[j].0) == j,
{
    let k = nonce_index(r, r[j].0);
    if k < j {
        assert(r[k].0 < r[j].0);
    } else if j < k {
        assert(r[j].0 < r[k].0);
    }
}

/// An entry put where its nonce belongs keeps the listing ascending and adds
/// one pair to the map.
pub proof fn lemma_nonce_map_insert<V>(r: Seq<(u128, V)>, j: int, n: u128, v: V)
    requires
        nonces_ascending(r),
        0 <= j <= r.len(),
        forall|k: int| 0 <= k < j ==> (#[trigger] r[k]).0 < n,
        forall|k: int| j <= k < r.len() ==> n < (#[trigger] r[k]).0,
    ensures
        nonces_ascending(r.insert(j, (n, v))),
        nonce_map(r.insert(j, (n, v))) == nonce_map(r).insert(n, v),
        !has_nonce(r, n),
{
    let s = r.insert(j, (n, v));
    assert(nonces_ascending(s)) by {
        assert forall|a: int, b: int| 0 <= a < b < s.len() implies (#[trigger] s[a]).0 < (
        #[trigger] s[b]).0 by {
            let a0 = if a < j { a } else { a - 1 };
            let b0 = if b < j { b } else { b - 1 };
            if a != j && b != j {
                assert(r[a0].0 < r[b0].0);
            } else if a == j {
                assert(n < r[b0].0);
            } else {
                assert(r[a0].0 < n);
            }
        }
    }
    assert forall|m: u128| has_nonce(s, m) == (m == n || has_nonce(r, m)) by {
        if has_nonce(s, m) {
            let k = nonce_index(s, m);
            if k < j {
                assert(r[k].0 == m);
            } else if k > j {
                assert(r[k - 1].0 == m);
            }
        }
        if m == n {
            assert(s[j].0 == m);
        }
        if has_nonce(r, m) {
            let k = nonce_index(r, m);
            if k < j {
                assert(s[k].0 == m);
            } else {
                assert(s[k + 1].0 == m);
            }
        }
    }
    assert forall|m: u128| has_nonce(s, m) implies #[trigger] nonce_map(s)[m] == nonce_map(
        r,
    ).insert(n, v)[m] by {
        if m == n {
            lemma_nonce_index(s, j);
        } else {
            let k = nonce_index(r, m);
            let k1 = if k < j { k } else { k + 1 };
            assert(s[k1] == r[k]);
            lemma_nonce_index(s, k1);
        }
    }
    assert(nonce_map(s) =~= nonce_map(r).insert(n, v));
}

/// An entry taken out keeps the listing ascending and takes one pair out of
/// the map.
pub proof fn lemma_nonce_map_remove<V>(r: Seq<(u128, V)>, j: int)
    requires
        nonces_ascending(r),
        0 <= j < r.len(),
    ensures
        nonces_ascending(r.remove(j)),
        nonce_map(r.remove(j)) == nonce_map(r).remove(r[j].0),
{
    let s = r.remove(j);
    let n = r[j].0;
    assert(nonces_ascending(s)) by {
        assert forall|a: int, b: int| 0 <= a < b < s.len() implies (#[trigger] s[a]).0 < (
        #[trigger] s[b]).0 by {
            let a0 = if a < j { a } else { a + 1 };
            let b0 = if b < j { b } else { b + 1 };
            assert(r[a0].0 < r[b0].0);
        }
    }
    assert forall|m: u128| has_nonce(s, m) == (m != n && has_nonce(r, m)) by {
        if has_nonce(s, m) {
            let k = nonce_index(s, m);
            let k0 = if k < j { k } else { k + 1 };
            assert(r[k0].0 == m);
            if k0 < j {
                assert(r[k0].0 < r[j].0);
            } else {
                assert(r[j].0 < r[k0].0);
            }
        }
        if m != n && has_nonce(r, m) {
            let k = nonce_index(r, m);
            if k < j {
                assert(s[k].0 == m);
            } else {
                assert(s[k - 1].0 == m);
            }
        }
    }
    assert forall|m: u128| has_nonce(s, m) implies #[trigger] nonce_map(s)[m] == nonce_map(
        r,
    ).remove(n)[m] by {
        let k = nonce_index(r, m);
        let k1 = if k < j { k } else { k - 1 };
        assert(s[k1] == r[k]);
        lemma_nonce_index(s, k1);
    }
    assert(nonce_map(s) =~= nonce_map(r).remove(n));
}

/// A new value for a nonce that the listing holds keeps it ascending and
/// changes that pair of the map, and no other.
pub proof fn lemma_nonce_map_update<V>(r: Seq<(u128, V)>, j: int, v: V)
    requires
        nonces_ascending(r),
        0 <= j < r.len(),
    ensures
        nonces_ascending(r.update(j, (r[j].0, v))),
        nonce_map(r.update(j, (r[j].0, v))) == nonce_map(r).insert(r[j].0, v),
{
    let s = r.update(j, (r[j].0, v));
    assert(nonces_ascending(s)) by {
        assert forall|a: int, b: int| 0 <= a < b < s.len() implies (#[trigger] s[a]).0 < (
        #[trigger] s[b]).0 by {
            assert(r[a].0 < r[b].0);
        }
    }
    assert forall|m: u128| has_nonce(s, m) == has_nonce(r, m) by {
        if has_nonce(s, m) {
            let k = nonce_index(s, m);
            assert(r[k].0 == m);
        }
        if has_nonce(r, m) {
            let k = nonce_index(r, m);
            assert(s[k].0 == m);
        }
    }
    assert forall|m: u128| has_nonce(s, m) implies #[trigger] nonce_map(s)[m] == nonce_map(
        r,
    ).insert(r[j].0, v)[m] by {
        let k = nonce_index(r, m);
        lemma_nonce_index(r, k);
        assert(s[k].0 == m);
        lemma_nonce_index(s, k);
    }
    assert(nonce_map(s) =~= nonce_map(r).insert(r[j].0, v));
}

/// An ascending listing is determined by the map that it stands for.
pub proof fn lemma_nonce_listing_unique<V>(r: Seq<(u128, V)>, s: Seq<(u128, V)>)
    requires
        nonces_ascending(r),
        nonces_ascending(s),
        nonce_map(r) == nonce_map(s),
    ensures
        r == s,
    decreases r.len(),
{
    if r.len() == 0 {
        if s.len() > 0 {
            lemma_nonce_index(s, 0);
            assert(nonce_map(s).dom().contains(s[0].0));
            assert(has_nonce(r, s[0].0));
        }
        assert(r =~= s);
    } else {
        lemma_nonce_index(r, 0);
        assert(nonce_map(r).dom().contains(r[0].0));
        assert(has_nonce(s, r[0].0));
        let k = nonce_index(s, r[0].0);
        lemma_nonce_index(s, 0);
        assert(nonce_map(s).dom().contains(s[0].0));
        assert(has_nonce(r, s[0].0));
        let m = nonce_index(r, s[0].0);
        if k > 0 {
            assert(s[0].0 < s[k].0);
            if m > 0 {
                assert(r[0].0 < r[m].0);
            }
        }
        assert(s[0].0 == r[0].0);
        assert(nonce_map(r)[r[0].0] == r[0].1);
        assert(nonce_map(s)[r[0].0] == s[0].1);
        assert(r[0] == s[0]);
        lemma_nonce_map_remove(r, 0);
        lemma_nonce_map_remove(s, 0);
        lemma_nonce_listing_unique(r.remove(0), s.remove(0));
        assert forall|i: int| 0 <= i < r.len() implies r[i] == s[i] by {
            if i > 0 {
                assert(r[i] == r.remove(0)[i - 1]);
                assert(s[i] == s.remove(0)[i - 1]);
            }
        }
        assert(r.len() == r.remove(0).len() + 1);
        assert(s.len() == s.remove(0).len() + 1);
        assert(r =~= s);
    }
}

} // verus!
