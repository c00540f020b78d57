//! The request ledger: for each account the requests that it has
//! outstanding, by nonce. Accounts and nonces are kept in ascending order,
//! so that pages come out in order and can be resumed after a cursor.

use crate::account::{
    account_lt, compare_accounts, lemma_account_lt_asymmetric, lemma_account_lt_irreflexive,
    lemma_account_lt_transitive, Position,
};
use crate::listing::{
    accounts_after, first_page, has_account, has_request, ledger_map, lemma_account_index,
    lemma_accounts_after, lemma_ledger_map_insert, lemma_ledger_map_update,
    lemma_payments_total_insert, lemma_payments_total_update, lemma_requests_total_insert,
    lemma_requests_total_remove, listing_ascending, payments_total, request_at, requests_of,
    summaries_of, summary_of, AccountListing,
};
use crate::nonces::{
    has_nonce, lemma_nonce_index, lemma_nonce_map_insert, lemma_nonce_map_remove, nonce_map,
    nonces_ascending,
};
use crate::request::{
    requests_view, summaries_view, OracleRequest, RequestView, RequestsJSON, SummaryJSON,
};
use vstd::prelude::*;

verus! {

/// The requests of one account, in ascending order of their nonces.
#[derive(Debug)]
struct AccountRequests {
    account: String,
    requests: Vec<RequestsJSON>,
}

impl View for AccountRequests {
    type V = AccountListing;

    closed spec fn view(&self) -> AccountListing {
        AccountListing { account: self.account@, requests: requests_view(self.requests@) }
    }
}

/// One account of a page over the whole ledger, with the first of its
/// requests.
#[derive(Debug)]
pub struct AccountPage {
    pub account: String,
    pub requests: Vec<RequestsJSON>,
}

impl View for AccountPage {
    type V = AccountListing;

    open spec fn view(&self) -> AccountListing {
        AccountListing { account: self.account@, requests: requests_view(self.requests@) }
    }
}

/// The views of the entries of a page over the whole ledger, in order.
pub open spec fn pages_view(pages: Seq<AccountPage>) -> Seq<AccountListing> {
    Seq::new(pages.len(), |i: int| pages[i]@)
}

/// The first `max_accounts` entries of `l`, each cut to its first
/// `max_requests` requests.
pub open spec fn pages_of(l: Seq<AccountListing>, max_accounts: nat, max_requests: nat) -> Seq<
    AccountListing,
> {
    Seq::new(
        first_page(l, max_accounts).len(),
        |i: int|
            AccountListing {
                account: l[i].account,
                requests: first_page(l[i].requests, max_requests),
            },
    )
}

spec fn listing_of(entries: Seq<AccountRequests>) -> Seq<AccountListing> {
    Seq::new(entries.len(), |i: int| entries[i]@)
}

/// The requests that are outstanding, by account and nonce.
#[derive(Debug)]
pub struct Ledger {
    entries: Vec<AccountRequests>,
}

impl View for Ledger {
    type V = Seq<AccountListing>;

    closed spec fn view(&self) -> Seq<AccountListing> {
        listing_of(self.entries@)
    }
}

/// Where `nonce` stands among `requests`, or where it would.
fn locate_nonce(requests: &Vec<RequestsJSON>, nonce: u128) -> (r: (usize, bool))
    requires
        nonces_ascending(requests_view(requests@)),
    ensures
        r.0 <= requests@.len(),
        r.1 == has_nonce(requests_view(requests@), nonce),
        r.1 ==> r.0 < requests@.len() && requests@[r.0 as int].nonce == nonce,
        forall|k: int| 0 <= k < r.0 ==> (#[trigger] requests_view(requests@)[k]).0 < nonce,
        !r.1 ==> forall|k: int|
            r.0 <= k < requests@.len() ==> nonce < (#[trigger] requests_view(requests@)[k]).0,
{
    let ghost view = requests_view(requests@);
    let mut i: usize = 0;
    while i < requests.len()
        invariant
            i <= requests@.len(),
            view == requests_view(requests@),
            nonces_ascending(view),
            forall|k: int| 0 <= k < i ==> (#[trigger] view[k]).0 < nonce,
        decreases requests@.len() - i,
    {
        let here: u128 = requests[i].nonce;
        assert(view[i as int].0 == here);
        if here == nonce {
            return (i, true);
        }
        if nonce < here {
            proof {
                assert forall|k: int| i <= k < requests@.len() implies nonce < (#[trigger] view[k]).0 by {
                    if i < k {
                        assert(view[i as int].0 < view[k].0);
                    }
                }
                if has_nonce(view, nonce) {
                    let k = choose|k: int| 0 <= k < view.len() && (#[trigger] view[k]).0 == nonce;
                    assert(false);
                }
            }
            return (i, false);
        }
        i += 1;
    }
    proof {
        if has_nonce(view, nonce) {
            let k = choose|k: int| 0 <= k < view.len() && (#[trigger] view[k]).0 == nonce;
            assert(false);
        }
    }
    (i, false)
}

/// The first `max` of `requests`, or all of them where there are fewer.
fn copy_requests(requests: &Vec<RequestsJSON>, max: u64) -> (page: Vec<RequestsJSON>)
    ensures
        requests_view(page@) == first_page(requests_view(requests@), max as nat),
{
    let count: usize = if max < requests.len() as u64 {
        max as usize
    } else {
        requests.len()
    };
    let mut page: Vec<RequestsJSON> = Vec::new();
    let mut i: usize = 0;
    while i < count
        invariant
            i <= count,
            count <= requests@.len(),
            page@.len() == i,
            forall|k: int| 0 <= k < i ==> (#[trigger] page@[k])@ == requests@[k]@,
        decreases count - i,
    {
        page.push(requests[i].clone());
        i += 1;
    }
    assert(requests_view(page@) =~= first_page(requests_view(requests@), max as nat));
    page
}

impl Ledger {
    /// Accounts and nonces stand in strictly ascending order.
    #[verifier::type_invariant]
    pub open spec fn wf(&self) -> bool {
        listing_ascending(self@)
    }

    /// A ledger without accounts.
    pub fn new() -> (ledger: Ledger)
        ensures
            ledger@ == Seq::<AccountListing>::empty(),
    {
        let ledger = Ledger { entries: Vec::new() };
        assert(ledger@ =~= Seq::<AccountListing>::empty());
        ledger
    }

    /// The number of accounts that the ledger knows.
    pub fn len(&self) -> (n: usize)
        ensures
            n == self@.len(),
    {
        self.entries.len()
    }

    /// Where `account` stands in the listing, or where it would.
    fn locate(&self, account: &String) -> (r: (usize, bool))
        ensures
            r.0 <= self@.len(),
            r.1 == has_account(self@, account@),
            r.1 ==> r.0 < self@.len() && self@[r.0 as int].account == account@,
            forall|k: int| 0 <= k < r.0 ==> account_lt((#[trigger] self@[k]).account, account@),
            !r.1 ==> forall|k: int|
                r.0 <= k < self@.len() ==> account_lt(account@, (#[trigger] self@[k]).account),
    {
        proof {
            use_type_invariant(self);
        }
        let ghost l = self@;
        let mut i: usize = 0;
        while i < self.entries.len()
            invariant
                i <= self.entries@.len(),
                l == self@,
                l.len() == self.entries@.len(),
                listing_ascending(l),
                forall|k: int| 0 <= k < i ==> account_lt((#[trigger] l[k]).account, account@),
            decreases self.entries@.len() - i,
        {
            assert(l[i as int].account == self.entries@[i as int].account@);
            match compare_accounts(&self.entries[i].account, account) {
                Position::Before => {},
                Position::Same => {
                    return (i, true);
                },
                Position::After => {
                    proof {
                        assert forall|k: int| i <= k < l.len() implies account_lt(
                            account@,
                            (#[trigger] l[k]).account,
                        ) by {
                            if i < k {
                                assert(account_lt(l[i as int].account, l[k].account));
                                lemma_account_lt_transitive(
                                    account@,
                                    l[i as int].account,
                                    l[k].account,
                                );
                            }
                        }
                        if has_account(l, account@) {
                            let k = choose|k: int|
                                0 <= k < l.len() && (#[trigger] l[k]).account == account@;
                            if k < i {
                                lemma_account_lt_asymmetric(l[k].account, account@);
                            } else {
                                lemma_account_lt_asymmetric(account@, l[k].account);
                            }
                        }
                    }
                    return (i, false);
                },
            }
            i += 1;
        }
        proof {
            if has_account(l, account@) {
                let k = choose|k: int| 0 <= k < l.len() && (#[trigger] l[k]).account == account@;
                lemma_account_lt_asymmetric(l[k].account, account@);
            }
        }
        (i, false)
    }

    /// How many accounts of the listing do not come after `cursor`.
    fn first_after(&self, cursor: &String) -> (k: usize)
        ensures
            k <= self@.len(),
            accounts_after(self@, cursor@) == self@.skip(k as int),
    {
        proof {
            use_type_invariant(self);
        }
        let (i, found) = self.locate(cursor);
        let n: usize = self.entries.len();
        assert(self@.len() == n);
        let k: usize = if found {
            i + 1
        } else {
            i
        };
        proof {
            let l = self@;
            assert forall|m: int| 0 <= m < k implies !account_lt(
                cursor@,
                (#[trigger] l[m]).account,
            ) by {
                if m < i {
                    lemma_account_lt_asymmetric(l[m].account, cursor@);
                } else {
                    lemma_account_lt_irreflexive(cursor@);
                }
            }
            assert forall|m: int| k <= m < l.len() implies account_lt(
                cursor@,
                (#[trigger] l[m]).account,
            ) by {
                if found {
                    assert(account_lt(l[i as int].account, l[m].account));
                }
            }
            lemma_accounts_after(l, cursor@, k as int);
        }
        k
    }

    /// Whether the ledger knows `account`, with or without requests.
    pub fn contains_key(&self, account: &String) -> (known: bool)
        ensures
            known == has_account(self@, account@),
    {
        let (_, found) = self.locate(account);
        found
    }

    /// Whether a request is stored for the pair of `account` and `nonce`.
    pub fn contains(&self, account: &String, nonce: u128) -> (stored: bool)
        ensures
            stored == has_request(self@, account@, nonce),
    {
        proof {
            use_type_invariant(self);
        }
        let (i, found) = self.locate(account);
        if !found {
            return false;
        }
        proof {
            lemma_account_index(self@, i as int);
        }
        let (_, present) = locate_nonce(&self.entries[i].requests, nonce);
        present
    }

    /// The request stored for the pair of `account` and `nonce`.
    pub fn get(&self, account: &String, nonce: u128) -> (found: Option<OracleRequest>)
        ensures
            found is Some == has_request(self@, account@, nonce),
            found is Some ==> found->0@ == request_at(self@, account@, nonce),
    {
        proof {
            use_type_invariant(self);
        }
        let (i, known) = self.locate(account);
        if !known {
            return None;
        }
        proof {
            lemma_account_index(self@, i as int);
        }
        let (j, present) = locate_nonce(&self.entries[i].requests, nonce);
        if !present {
            return None;
        }
        proof {
            lemma_nonce_index(self@[i as int].requests, j as int);
        }
        Some(self.entries[i].requests[j].request.clone())
    }

    /// Makes `account` known to the ledger, without requests, unless it is
    /// known already: then nothing changes.
    pub fn open_account(&mut self, account: String) -> (opened: bool)
        ensures
            opened == !has_account(old(self)@, account@),
            opened ==> ledger_map(final(self)@) == ledger_map(old(self)@).insert(
                account@,
                Map::<u128, RequestView>::empty(),
            ),
            !opened ==> final(self)@ == old(self)@,
            payments_total(final(self)@) == payments_total(old(self)@),
    {
        proof {
            use_type_invariant(&*self);
        }
        let ghost l = self@;
        let (i, found) = self.locate(&account);
        if found {
            return false;
        }
        let mut entries: Vec<AccountRequests> = Vec::new();
        std::mem::swap(&mut entries, &mut self.entries);
        assert(listing_of(entries@) == l);
        let entry = AccountRequests { account, requests: Vec::new() };
        let ghost added = AccountListing {
            account: account@,
            requests: Seq::<(u128, RequestView)>::empty(),
        };
        assert(entry@.requests =~= added.requests);
        entries.insert(i, entry);
        proof {
            assert(listing_of(entries@) =~= l.insert(i as int, added));
            assert(nonce_map(added.requests) =~= Map::<u128, RequestView>::empty());
            lemma_ledger_map_insert(l, i as int, added);
            lemma_payments_total_insert(l, i as int, added);
        }
        self.entries = entries;
        true
    }

    /// Stores `request` for the pair of `account` and `nonce`, unless a
    /// request is stored for that pair already: then nothing changes.
    pub fn insert(&mut self, account: String, nonce: u128, request: OracleRequest) -> (inserted:
        bool)
        ensures
            inserted == !has_request(old(self)@, account@, nonce),
            inserted ==> ledger_map(final(self)@) == ledger_map(old(self)@).insert(
                account@,
                nonce_map(requests_of(old(self)@, account@)).insert(nonce, request@),
            ),
            !inserted ==> final(self)@ == old(self)@,
            payments_total(final(self)@) == payments_total(old(self)@) + if inserted {
                request.payment as nat
            } else {
                0
            },
    {
        proof {
            use_type_invariant(&*self);
        }
        let ghost l = self@;
        let (i, found) = self.locate(&account);
        let mut entries: Vec<AccountRequests> = Vec::new();
        std::mem::swap(&mut entries, &mut self.entries);
        assert(listing_of(entries@) == l);
        if found {
            proof {
                lemma_account_index(l, i as int);
            }
            let mut entry = entries.remove(i);
            assert(entry@ == l[i as int]);
            let (j, present) = locate_nonce(&entry.requests, nonce);
            if present {
                entries.insert(i, entry);
                assert(listing_of(entries@) =~= l);
                self.entries = entries;
                return false;
            }
            let ghost value = request@;
            entry.requests.insert(j, RequestsJSON { nonce, request });
            let ghost after = AccountListing {
                account: l[i as int].account,
                requests: l[i as int].requests.insert(j as int, (nonce, value)),
            };
            assert(entry@.requests =~= after.requests);
            entries.insert(i, entry);
            proof {
                assert(listing_of(entries@) =~= l.update(i as int, after));
                lemma_nonce_map_insert(l[i as int].requests, j as int, nonce, value);
                lemma_ledger_map_update(l, i as int, after.requests);
                lemma_requests_total_insert(l[i as int].requests, j as int, (nonce, value));
                lemma_payments_total_update(l, i as int, after);
            }
            self.entries = entries;
            true
        } else {
            let ghost value = request@;
            let mut requests: Vec<RequestsJSON> = Vec::new();
            requests.push(RequestsJSON { nonce, request });
            let entry = AccountRequests { account, requests };
            let ghost added = AccountListing {
                account: account@,
                requests: Seq::<(u128, RequestView)>::empty().insert(0, (nonce, value)),
            };
            assert(entry@.requests =~= added.requests);
            entries.insert(i, entry);
            proof {
                assert(listing_of(entries@) =~= l.insert(i as int, added));
                lemma_nonce_map_insert(Seq::<(u128, RequestView)>::empty(), 0, nonce, value);
                lemma_ledger_map_insert(l, i as int, added);
                lemma_requests_total_insert(Seq::<(u128, RequestView)>::empty(), 0, (nonce, value));
                lemma_payments_total_insert(l, i as int, added);
            }
            self.entries = entries;
            true
        }
    }

    /// Takes out the request stored for the pair of `account` and `nonce`,
    /// if there is one. The account stays known to the ledger, also when it
    /// was its last request.
    pub fn remove(&mut self, account: &String, nonce: u128) -> (removed: bool)
        ensures
            removed == has_request(old(self)@, account@, nonce),
            removed ==> ledger_map(final(self)@) == ledger_map(old(self)@).insert(
                account@,
                nonce_map(requests_of(old(self)@, account@)).remove(nonce),
            ),
            !removed ==> final(self)@ == old(self)@,
            payments_total(final(self)@) + (if removed {
                request_at(old(self)@, account@, nonce).payment as nat
            } else {
                0
            }) == payments_total(old(self)@),
    {
        proof {
            use_type_invariant(&*self);
        }
        let ghost l = self@;
        let (i, found) = self.locate(account);
        if !found {
            return false;
        }
        proof {
            lemma_account_index(l, i as int);
        }
        let (j, present) = locate_nonce(&self.entries[i].requests, nonce);
        if !present {
            return false;
        }
        let mut entries: Vec<AccountRequests> = Vec::new();
        std::mem::swap(&mut entries, &mut self.entries);
        assert(listing_of(entries@) == l);
        let mut entry = entries.remove(i);
        assert(entry@ == l[i as int]);
        entry.requests.remove(j);
        let ghost after = AccountListing {
            account: l[i as int].account,
            requests: l[i as int].requests.remove(j as int),
        };
        assert(entry@.requests =~= after.requests);
        entries.insert(i, entry);
        proof {
            assert(listing_of(entries@) =~= l.update(i as int, after));
            lemma_nonce_index(l[i as int].requests, j as int);
            lemma_nonce_map_remove(l[i as int].requests, j as int);
            lemma_ledger_map_update(l, i as int, after.requests);
            lemma_requests_total_remove(l[i as int].requests, j as int);
            lemma_payments_total_update(l, i as int, after);
        }
        self.entries = entries;
        true
    }

    /// Forgets every account and every request.
    pub fn clear(&mut self)
        ensures
            final(self)@ == Seq::<AccountListing>::empty(),
    {
        self.entries = Vec::new();
        assert(self@ =~= Seq::<AccountListing>::empty());
    }

    /// The summaries of up to `max` accounts, from the `start`-th on.
    fn summary_range(&self, start: usize, max: u64) -> (page: Vec<SummaryJSON>)
        requires
            start <= self@.len(),
        ensures
            summaries_view(page@) == summaries_of(first_page(self@.skip(start as int), max as nat)),
    {
        let n: usize = self.entries.len();
        let rest: usize = n - start;
        let count: usize = if max < rest as u64 {
            max as usize
        } else {
            rest
        };
        let ghost l = self@;
        let mut page: Vec<SummaryJSON> = Vec::new();
        let mut i: usize = 0;
        while i < count
            invariant
                i <= count,
                start + count <= n,
                n == self.entries@.len(),
                l == self@,
                l.len() == self.entries@.len(),
                page@.len() == i,
                forall|k: int| 0 <= k < i ==> (#[trigger] page@[k])@ == summary_of(l[start + k]),
            decreases count - i,
        {
            let entry = &self.entries[start + i];
            assert(l[start + i] == entry@);
            page.push(
                SummaryJSON {
                    account: entry.account.clone(),
                    total_requests: entry.requests.len() as u64,
                },
            );
            i += 1;
        }
        assert(summaries_view(page@) =~= summaries_of(first_page(l.skip(start as int), max as nat)));
        page
    }

    /// The first `max` accounts in ascending order, each with the number of
    /// its requests.
    pub fn summary(&self, max: u64) -> (page: Vec<SummaryJSON>)
        ensures
            summaries_view(page@) == summaries_of(first_page(self@, max as nat)),
    {
        assert(self@.skip(0) =~= self@);
        self.summary_range(0, max)
    }

    /// The first `max` of the accounts that come after `cursor`, in ascending
    /// order, each with the number of its requests.
    pub fn summary_from(&self, cursor: &String, max: u64) -> (page: Vec<SummaryJSON>)
        ensures
            summaries_view(page@) == summaries_of(first_page(accounts_after(self@, cursor@), max as nat)),
    {
        let start = self.first_after(cursor);
        self.summary_range(start, max)
    }

    /// The first `max` requests of `account` in ascending order of their
    /// nonces; nothing for an account that the ledger does not know.
    pub fn requests_page(&self, account: &String, max: u64) -> (page: Option<Vec<RequestsJSON>>)
        ensures
            page is Some == has_account(self@, account@),
            page is Some ==> requests_view(page->0@) == first_page(
                requests_of(self@, account@),
                max as nat,
            ),
    {
        proof {
            use_type_invariant(self);
        }
        let (i, found) = self.locate(account);
        if !found {
            return None;
        }
        proof {
            lemma_account_index(self@, i as int);
        }
        Some(copy_requests(&self.entries[i].requests, max))
    }

    /// The first `max_accounts` accounts in ascending order, each with the
    /// first `max_requests` of its requests.
    pub fn all_requests(&self, max_accounts: u64, max_requests: u64) -> (pages: Vec<AccountPage>)
        ensures
            pages_view(pages@) == pages_of(self@, max_accounts as nat, max_requests as nat),
    {
        let count: usize = if max_accounts < self.entries.len() as u64 {
            max_accounts as usize
        } else {
            self.entries.len()
        };
        let ghost l = self@;
        let mut pages: Vec<AccountPage> = Vec::new();
        let mut i: usize = 0;
        while i < count
            invariant
                i <= count,
                count <= self.entries@.len(),
                l == self@,
                l.len() == self.entries@.len(),
                pages@.len() == i,
                forall|k: int|
                    0 <= k < i ==> (#[trigger] pages@[k])@ == (AccountListing {
                        account: l[k].account,
                        requests: first_page(l[k].requests, max_requests as nat),
                    }),
            decreases count - i,
        {
            let entry = &self.entries[i];
            assert(l[i as int] == entry@);
            pages.push(
                AccountPage {
                    account: entry.account.clone(),
                    requests: copy_requests(&entry.requests, max_requests),
                },
            );
            i += 1;
        }
        assert(pages_view(pages@) =~= pages_of(l, max_accounts as nat, max_requests as nat));
        pages
    }
}

} // verus!
