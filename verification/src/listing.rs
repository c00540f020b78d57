//! The mathematical model of the request ledger: an ascending listing of
//! accounts, each with an ascending listing of its requests by nonce, and the
//! two-level map that such a listing stands for.

use crate::account::{account_lt, lemma_account_lt_asymmetric, lemma_account_lt_irreflexive};
use crate::nonces::{has_nonce, lemma_nonce_listing_unique, nonce_map, nonces_ascending};
use crate::request::RequestView;
use vstd::prelude::*;

verus! {

/// What the ledger holds for one account: its requests in ascending order of
/// their nonces.
pub struct AccountListing {
    pub account: Seq<char>,
    pub requests: Seq<(u128, RequestView)>,
}

/// The accounts grow strictly along `l`, so none occurs twice, and so do the
/// nonces of each account.
pub open spec fn listing_ascending(l: Seq<AccountListing>) -> bool {
    &&& forall|i: int, j: int|
        0 <= i < j < l.len() ==> account_lt((#[trigger] l[i]).account, (#[trigger] l[j]).account)
    &&& forall|i: int| 0 <= i < l.len() ==> nonces_ascending((#[trigger] l[i]).requests)
}

/// Some entry of `l` is for the account `a`.
pub open spec fn has_account(l: Seq<AccountListing>, a: Seq<char>) -> bool {
    exists|i: int| 0 <= i < l.len() && (#[trigger] l[i]).account == a
}

/// Where `l` holds the account `a`, if it does.
pub open spec fn account_index(l: Seq<AccountListing>, a: Seq<char>) -> int {
    choose|i: int| 0 <= i < l.len() && (#[trigger] l[i]).account == a
}

/// The ledger as a two-level map: account, then nonce, then record.
pub open spec fn ledger_map(l: Seq<AccountListing>) -> Map<Seq<char>, Map<u128, RequestView>> {
    Map::new(|a: Seq<char>| has_account(l, a), |a: Seq<char>| nonce_map(l[account_index(l, a)].requests))
}

/// The requests that `l` holds for `a` in ascending order of their nonces;
/// none for an account that `l` does not know.
pub open spec fn requests_of(l: Seq<AccountListing>, a: Seq<char>) -> Seq<(u128, RequestView)> {
    if has_account(l, a) {
        l[account_index(l, a)].requests
    } else {
        Seq::empty()
    }
}

/// A record is stored for the pair of `a` and `n`.
pub open spec fn has_request(l: Seq<AccountListing>, a: Seq<char>, n: u128) -> bool {
    has_nonce(requests_of(l, a), n)
}

/// The record stored for the pair of `a` and `n`, if there is one.
pub open spec fn request_at(l: Seq<AccountListing>, a: Seq<char>, n: u128) -> RequestView {
    nonce_map(requests_of(l, a))[n]
}

/// The sum of the payments of the requests in `r`.
pub open spec fn requests_total(r: Seq<(u128, RequestView)>) -> nat
    decreases r.len(),
{
    if r.len() == 0 {
        0
    } else {
        requests_total(r.drop_last()) + r.last().1.payment as nat
    }
}

/// The sum of the payments of all the requests that the ledger holds.
pub open spec fn payments_total(l: Seq<AccountListing>) -> nat
    decreases l.len(),
{
    if l.len() == 0 {
        0
    } else {
        payments_total(l.drop_last()) + requests_total(l.last().requests)
    }
}

/// The entries of `l` whose account comes after `cursor`, in order.
pub open spec fn accounts_after(l: Seq<AccountListing>, cursor: Seq<char>) -> Seq<AccountListing> {
    l.filter(|e: AccountListing| account_lt(cursor, e.account))
}

/// The first `max` items of `s`, or all of them where it has fewer.
pub open spec fn first_page<A>(s: Seq<A>, max: nat) -> Seq<A> {
    if max < s.len() {
        s.take(max as int)
    } else {
        s
    }
}

/// An account and the number of its requests.
pub open spec fn summary_of(e: AccountListing) -> (Seq<char>, nat) {
    (e.account, e.requests.len())
}

/// The summaries of the entries of `l`, in order.
pub open spec fn summaries_of(l: Seq<AccountListing>) -> Seq<(Seq<char>, nat)> {
    Seq::new(l.len(), |i: int| summary_of(l[i]))
}

/// In an ascending listing an account is found where it stands and nowhere
/// else.
pub proof fn lemma_account_index(l: Seq<AccountListing>, i: int)
    requires
        listing_ascending(l),
        0 <= i < l.len(),
    ensures
        has_account(l, l[i].account),
        account_index(l, l[i].account) == i,
        requests_of(l, l[i].account) == l[i].requests,
{
    let k = account_index(l, l[i].account);
    if k < i {
        lemma_account_lt_asymmetric(l[k].account, l[i].account);
    } else if i < k {
        lemma_account_lt_asymmetric(l[i].account, l[k].account);
    }
}

/// New requests for an account that the ledger knows keep the listing
/// ascending and change that account's entry of the map, and no other.
pub proof fn lemma_ledger_map_update(l: Seq<AccountListing>, i: int, requests: Seq<(u128, RequestView)>)
    requires
        listing_ascending(l),
        0 <= i < l.len(),
        nonces_ascending(requests),
    ensures
        listing_ascending(l.update(i, AccountListing { account: l[i].account, requests })),
        ledger_map(l.update(i, AccountListing { account: l[i].account, requests })) == ledger_map(
            l,
        ).insert(l[i].account, nonce_map(requests)),
{
    let e = AccountListing { account: l[i].account, requests };
    let s = l.update(i, e);
    assert(listing_ascending(s)) by {
        assert forall|a: int, b: int| 0 <= a < b < s.len() implies account_lt(
            (#[trigger] s[a]).account,
            (#[trigger] s[b]).account,
        ) by {
            assert(account_lt(l[a].account, l[b].account));
        }
        assert forall|a: int| 0 <= a < s.len() implies nonces_ascending(
            (#[trigger] s[a]).requests,
        ) by {
            if a != i {
                assert(nonces_ascending(l[a].requests));
            }
        }
    }
    assert forall|a: Seq<char>| has_account(s, a) == has_account(l, a) by {
        if has_account(s, a) {
            let k = account_index(s, a);
            assert(l[k].account == a);
        }
        if has_account(l, a) {
            let k = account_index(l, a);
            assert(s[k].account == a);
        }
    }
    assert forall|a: Seq<char>| has_account(s, a) implies #[trigger] ledger_map(s)[a] == ledger_map(
        l,
    ).insert(l[i].account, nonce_map(requests))[a] by {
        let k = account_index(l, a);
        lemma_account_index(l, k);
        assert(s[k].account == a);
        lemma_account_index(s, k);
    }
    assert(ledger_map(s) =~= ledger_map(l).insert(l[i].account, nonce_map(requests)));
}

/// An account put where it belongs keeps the listing ascending and adds one
/// entry to the map.
pub proof fn lemma_ledger_map_insert(l: Seq<AccountListing>, i: int, e: AccountListing)
    requires
        listing_ascending(l),
        nonces_ascending(e.requests),
        0 <= i <= l.len(),
        forall|k: int| 0 <= k < i ==> account_lt((#[trigger] l[k]).account, e.account),
        forall|k: int| i <= k < l.len() ==> account_lt(e.account, (#[trigger] l[k]).account),
    ensures
        listing_ascending(l.insert(i, e)),
        ledger_map(l.insert(i, e)) == ledger_map(l).insert(e.account, nonce_map(e.requests)),
        !has_account(l, e.account),
{
    let s = l.insert(i, e);
    assert(listing_ascending(s)) by {
        assert forall|a: int, b: int| 0 <= a < b < s.len() implies account_lt(
            (#[trigger] s[a]).account,
            (#[trigger] s[b]).account,
        ) by {
            let a0 = if a < i { a } else { a - 1 };
            let b0 = if b < i { b } else { b - 1 };
            if a != i && b != i {
                assert(account_lt(l[a0].account, l[b0].account));
            } else if a == i {
                assert(account_lt(e.account, l[b0].account));
            } else {
                assert(account_lt(l[a0].account, e.account));
            }
        }
        assert forall|a: int| 0 <= a < s.len() implies nonces_ascending(
            (#[trigger] s[a]).requests,
        ) by {
            let a0 = if a < i { a } else { a - 1 };
            if a != i {
                assert(nonces_ascending(l[a0].requests));
            }
        }
    }
    if has_account(l, e.account) {
        let k = account_index(l, e.account);
        if k < i {
            lemma_account_lt_asymmetric(l[k].account, e.account);
        } else {
            lemma_account_lt_asymmetric(e.account, l[k].account);
        }
    }
    assert forall|a: Seq<char>| has_account(s, a) == (a == e.account || has_account(l, a)) by {
        if has_account(s, a) {
            let k = account_index(s, a);
            if k < i {
                assert(l[k].account == a);
            } else if k > i {
                assert(l[k - 1].account == a);
            }
        }
        if a == e.account {
            assert(s[i].account == a);
        }
        if has_account(l, a) {
            let k = account_index(l, a);
            if k < i {
                assert(s[k].account == a);
            } else {
                assert(s[k + 1].account == a);
            }
        }
    }
    assert forall|a: Seq<char>| has_account(s, a) implies #[trigger] ledger_map(s)[a] == ledger_map(
        l,
    ).insert(e.account, nonce_map(e.requests))[a] by {
        if a == e.account {
            lemma_account_index(s, i);
        } else {
            let k = account_index(l, a);
            let k1 = if k < i { k } else { k + 1 };
            assert(s[k1] == l[k]);
            lemma_account_index(s, k1);
        }
    }
    assert(ledger_map(s) =~= ledger_map(l).insert(e.account, nonce_map(e.requests)));
}

/// An account taken out keeps the listing ascending and takes one entry out
/// of the map.
pub proof fn lemma_ledger_map_remove(l: Seq<AccountListing>, i: int)
    requires
        listing_ascending(l),
        0 <= i < l.len(),
    ensures
        listing_ascending(l.remove(i)),
        ledger_map(l.remove(i)) == ledger_map(l).remove(l[i].account),
{
    let s = l.remove(i);
    let gone = l[i].account;
    assert(listing_ascending(s)) by {
        assert forall|a: int, b: int| 0 <= a < b < s.len() implies account_lt(
            (#[trigger] s[a]).account,
            (#[trigger] s[b]).account,
        ) by {
            let a0 = if a < i { a } else { a + 1 };
            let b0 = if b < i { b } else { b + 1 };
            assert(account_lt(l[a0].account, l[b0].account));
        }
        assert forall|a: int| 0 <= a < s.len() implies nonces_ascending(
            (#[trigger] s[a]).requests,
        ) by {
            let a0 = if a < i { a } else { a + 1 };
            assert(nonces_ascending(l[a0].requests));
        }
    }
    assert forall|a: Seq<char>| has_account(s, a) == (a != gone && has_account(l, a)) by {
        if has_account(s, a) {
            let k = account_index(s, a);
            let k0 = if k < i { k } else { k + 1 };
            assert(l[k0].account == a);
            if k0 < i {
                assert(account_lt(l[k0].account, l[i].account));
                lemma_account_lt_asymmetric(l[k0].account, l[i].account);
            } else {
                assert(account_lt(l[i].account, l[k0].account));
                lemma_account_lt_asymmetric(l[i].account, l[k0].account);
            }
        }
        if a != gone && has_account(l, a) {
            let k = account_index(l, a);
            if k < i {
                assert(s[k].account == a);
            } else {
                assert(s[k - 1].account == a);
            }
        }
    }
    assert forall|a: Seq<char>| has_account(s, a) implies #[trigger] ledger_map(s)[a] == ledger_map(
        l,
    ).remove(gone)[a] by {
        let k = account_index(l, a);
        lemma_account_index(l, k);
        let k1 = if k < i { k } else { k - 1 };
        assert(s[k1] == l[k]);
        lemma_account_index(s, k1);
    }
    assert(ledger_map(s) =~= ledger_map(l).remove(gone));
}

/// A ledger is determined by its map: two ascending listings that stand for
/// the same map are the same listing.
pub proof fn lemma_listing_unique(l: Seq<AccountListing>, m: Seq<AccountListing>)
    requires
        listing_ascending(l),
        listing_ascending(m),
        ledger_map(l) == ledger_map(m),
    ensures
        l == m,
    decreases l.len(),
{
    if l.len() == 0 {
        if m.len() > 0 {
            lemma_account_index(m, 0);
            assert(ledger_map(m).dom().contains(m[0].account));
            assert(has_account(l, m[0].account));
        }
        assert(l =~= m);
    } else {
        lemma_account_index(l, 0);
        assert(ledger_map(l).dom().contains(l[0].account));
        assert(has_account(m, l[0].account));
        let k = account_index(m, l[0].account);
        lemma_account_index(m, 0);
        assert(ledger_map(m).dom().contains(m[0].account));
        assert(has_account(l, m[0].account));
        let j = account_index(l, m[0].account);
        if k > 0 {
            assert(account_lt(m[0].account, m[k].account));
            if j > 0 {
                assert(account_lt(l[0].account, l[j].account));
                lemma_account_lt_asymmetric(l[0].account, l[j].account);
            } else {
                lemma_account_lt_irreflexive(l[0].account);
            }
        }
        assert(m[0].account == l[0].account);
        assert(ledger_map(l)[l[0].account] == nonce_map(l[0].requests));
        assert(ledger_map(m)[l[0].account] == nonce_map(m[0].requests));
        lemma_nonce_listing_unique(l[0].requests, m[0].requests);
        assert(l[0] == m[0]);
        lemma_ledger_map_remove(l, 0);
        lemma_ledger_map_remove(m, 0);
        lemma_listing_unique(l.remove(0), m.remove(0));
        assert forall|i: int| 0 <= i < l.len() implies l[i] == m[i] by {
            if i > 0 {
                assert(l[i] == l.remove(0)[i - 1]);
                assert(m[i] == m.remove(0)[i - 1]);
            }
        }
        assert(l.len() == l.remove(0).len() + 1);
        assert(m.len() == m.remove(0).len() + 1);
        assert(l =~= m);
    }
}

/// Putting a request into a listing adds its payment to the sum.
pub proof fn lemma_requests_total_insert(r: Seq<(u128, RequestView)>, j: int, x: (u128, RequestView))
    requires
        0 <= j <= r.len(),
    ensures
        requests_total(r.insert(j, x)) == requests_total(r) + x.1.payment,
    decreases r.len() - j,
{
    let s = r.insert(j, x);
    if j == r.len() {
        assert(s.drop_last() =~= r);
    } else {
        assert(s.drop_last() =~= r.drop_last().insert(j, x));
        assert(s.last() == r.last());
        lemma_requests_total_insert(r.drop_last(), j, x);
    }
}

/// Taking a request out of a listing takes its payment off the sum.
pub proof fn lemma_requests_total_remove(r: Seq<(u128, RequestView)>, j: int)
    requires
        0 <= j < r.len(),
    ensures
        requests_total(r.remove(j)) + r[j].1.payment == requests_total(r),
    decreases r.len(),
{
    let s = r.remove(j);
    if j == r.len() - 1 {
        assert(s =~= r.drop_last());
    } else {
        assert(s.drop_last() =~= r.drop_last().remove(j));
        assert(s.last() == r.last());
        lemma_requests_total_remove(r.drop_last(), j);
    }
}

/// Replacing the requests of one account changes the sum by the difference
/// of the two sums.
pub proof fn lemma_payments_total_update(l: Seq<AccountListing>, i: int, e: AccountListing)
    requires
        0 <= i < l.len(),
    ensures
        payments_total(l.update(i, e)) + requests_total(l[i].requests) == payments_total(l)
            + requests_total(e.requests),
    decreases l.len(),
{
    let s = l.update(i, e);
    if i == l.len() - 1 {
        assert(s.drop_last() =~= l.drop_last());
    } else {
        assert(s.drop_last() =~= l.drop_last().update(i, e));
        assert(s.last() == l.last());
        lemma_payments_total_update(l.drop_last(), i, e);
    }
}

/// Putting an account into the listing adds the sum of its requests.
pub proof fn lemma_payments_total_insert(l: Seq<AccountListing>, i: int, e: AccountListing)
    requires
        0 <= i <= l.len(),
    ensures
        payments_total(l.insert(i, e)) == payments_total(l) + requests_total(e.requests),
    decreases l.len() - i,
{
    let s = l.insert(i, e);
    if i == l.len() {
        assert(s.drop_last() =~= l);
    } else {
        assert(s.drop_last() =~= l.drop_last().insert(i, e));
        assert(s.last() == l.last());
        lemma_payments_total_insert(l.drop_last(), i, e);
    }
}

/// In an ascending listing the accounts after a cursor are the entries from
/// the first such account on.
pub proof fn lemma_accounts_after(l: Seq<AccountListing>, cursor: Seq<char>, k: int)
    requires
        0 <= k <= l.len(),
        forall|i: int| 0 <= i < k ==> !account_lt(cursor, (#[trigger] l[i]).account),
        forall|i: int| k <= i < l.len() ==> account_lt(cursor, (#[trigger] l[i]).account),
    ensures
        accounts_after(l, cursor) == l.skip(k),
    decreases l.len(),
{
    reveal(Seq::filter);
    if l.len() == 0 {
        assert(accounts_after(l, cursor) =~= l.skip(k));
    } else if k == l.len() {
        lemma_accounts_after(l.drop_last(), cursor, k - 1);
        assert(!account_lt(cursor, l.last().account));
        assert(accounts_after(l, cursor) == accounts_after(l.drop_last(), cursor));
        assert(l.drop_last().skip(k - 1) =~= l.skip(k));
    } else {
        lemma_accounts_after(l.drop_last(), cursor, k);
        assert(account_lt(cursor, l.last().account));
        assert(accounts_after(l, cursor) == accounts_after(l.drop_last(), cursor).push(l.last()));
        assert(l.drop_last().skip(k).push(l.last()) =~= l.skip(k));
    }
}

} // verus!
