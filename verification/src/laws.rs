//! What holds of the broker whatever is done to it, proved from the rules
//! in `model` that the operations of `Oracle` are held to.

use crate::account::{account_lt, lemma_account_lt_asymmetric, lemma_account_lt_irreflexive};
use crate::chain::{confirmed, ChainView, ContextView, PromiseOutcome};
use crate::error::OracleError;
use crate::listing::{
    accounts_after, first_page, has_account, has_request, ledger_map, lemma_accounts_after,
    lemma_listing_unique, listing_ascending, payments_total, request_at, requests_of,
    summaries_of, AccountListing,
};
use crate::nonces::{has_nonce, nonce_index, nonce_map};
use crate::model::{is_continuation, OracleView, RejectionView};
use crate::registry::{lemma_with_node, lemma_without_node};
use crate::request::RequestView;
use vstd::prelude::*;

verus! {

/// A request is stored for an account and a nonce exactly when the ledger,
/// read as a map, holds the nonce under the account.
pub proof fn lemma_has_request_in_map(l: Seq<AccountListing>, account: Seq<char>, nonce: u128)
    ensures
        has_request(l, account, nonce) == (ledger_map(l).dom().contains(account) && ledger_map(
            l,
        )[account].dom().contains(nonce)),
{
    if has_account(l, account) {
        assert(ledger_map(l)[account] == nonce_map(requests_of(l, account)));
    } else {
        assert(!has_nonce(Seq::<(u128, RequestView)>::empty(), nonce));
    }
}

/// The rules leave no choice: the state before a call, its arguments and
/// its answer determine the state after it. For `store_request` and
/// `fulfillment_post_callback`, whose rules describe the ledger after the
/// call by its map, this holds because an ascending listing is determined
/// by its map.
pub proof fn law_steps_are_determined(
    pre: OracleView,
    one: OracleView,
    other: OracleView,
    account: Seq<char>,
    nonce: u128,
    request: RequestView,
)
    ensures
        pre.stored(one, account, nonce, request) && pre.stored(other, account, nonce, request)
            ==> one == other,
        pre.cleaned(one, account, nonce) && pre.cleaned(other, account, nonce) ==> one == other,
{
    if pre.stored(one, account, nonce, request) && pre.stored(other, account, nonce, request) {
        lemma_listing_unique(one.requests, other.requests);
    }
    if pre.cleaned(one, account, nonce) && pre.cleaned(other, account, nonce) {
        if has_request(pre.requests, account, nonce) {
            lemma_listing_unique(one.requests, other.requests);
        }
    }
}

/// Every operation keeps the state valid: in the ledger, accounts and
/// nonces stay in strictly ascending order, so that a pair of account and
/// nonce names at most one request; and no node is listed twice.
pub proof fn law_steps_keep_validity(
    pre: OracleView,
    post: OracleView,
    ctx: ContextView,
    outcomes: Seq<PromiseOutcome>,
    sender: Seq<char>,
    payment: u128,
    spec_id: Seq<char>,
    callback_address: Seq<char>,
    callback_method: Seq<char>,
    nonce: u128,
    data: Seq<char>,
    stored: Result<(), RejectionView>,
    amount: u128,
    node: Seq<char>,
    result: Result<(), OracleError>,
)
    requires
        pre.valid(),
        ({
            ||| pre.store_step(
                post,
                ctx,
                outcomes,
                sender,
                payment,
                spec_id,
                callback_address,
                callback_method,
                nonce,
                data,
                stored,
            )
            ||| pre.cleanup_step(post, ctx, outcomes, sender, nonce, result)
            ||| pre.post_withdraw_step(post, ctx, outcomes, amount, result)
            ||| pre.add_authorization_step(post, ctx, node, result)
            ||| pre.remove_authorization_step(post, ctx, node, result)
            ||| pre.reset_step(post, ctx, result)
        }),
    ensures
        post.valid(),
{
    lemma_with_node(pre.authorized_nodes, node);
    lemma_without_node(pre.authorized_nodes, node);
}

/// A request that was stored is live: the ledger holds it under its
/// requester and nonce, as it was stored.
pub proof fn law_stored_request_is_live(
    pre: OracleView,
    post: OracleView,
    sender: Seq<char>,
    nonce: u128,
    request: RequestView,
)
    requires
        pre.stored(post, sender, nonce, request),
    ensures
        has_request(post.requests, sender, nonce),
        request_at(post.requests, sender, nonce) == request,
{
    lemma_has_request_in_map(post.requests, sender, nonce);
    assert(ledger_map(post.requests)[sender].dom().contains(nonce));
    assert(ledger_map(post.requests)[sender] == nonce_map(requests_of(post.requests, sender)));
}

/// Records are written once and never changed. Take one call of an
/// operation that can change the state, other than `reset`. A request that
/// is live before it, for a pair other than the one that a successful
/// cleanup names, is live after it and is the same record; and a request
/// that is live after it was live before, unless it is the one that a
/// successful `store_request` names. So only `store_request` creates a
/// record, and only the cleanup after a fulfillment takes one away.
pub proof fn law_records_are_written_once(
    pre: OracleView,
    post: OracleView,
    ctx: ContextView,
    outcomes: Seq<PromiseOutcome>,
    sender: Seq<char>,
    payment: u128,
    spec_id: Seq<char>,
    callback_address: Seq<char>,
    callback_method: Seq<char>,
    nonce: u128,
    data: Seq<char>,
    stored: Result<(), RejectionView>,
    amount: u128,
    node: Seq<char>,
    result: Result<(), OracleError>,
    account: Seq<char>,
    n: u128,
)
    ensures
        ({
            ||| pre.store_step(
                post,
                ctx,
                outcomes,
                sender,
                payment,
                spec_id,
                callback_address,
                callback_method,
                nonce,
                data,
                stored,
            ) && !(stored is Ok && account == sender && n == nonce)
            ||| pre.post_withdraw_step(post, ctx, outcomes, amount, result)
            ||| pre.add_authorization_step(post, ctx, node, result)
            ||| pre.remove_authorization_step(post, ctx, node, result)
            ||| pre.cleanup_step(post, ctx, outcomes, sender, nonce, result) && !(result is Ok
                && account == sender && n == nonce)
        }) ==> has_request(post.requests, account, n) == has_request(pre.requests, account, n)
            && (has_request(pre.requests, account, n) ==> request_at(post.requests, account, n)
            == request_at(pre.requests, account, n)),
{
    lemma_has_request_in_map(pre.requests, account, n);
    lemma_has_request_in_map(post.requests, account, n);
    lemma_has_request_in_map(pre.requests, sender, nonce);
    if has_account(pre.requests, account) {
        assert(ledger_map(pre.requests)[account] == nonce_map(requests_of(pre.requests, account)));
    }
    if has_account(post.requests, account) {
        assert(ledger_map(post.requests)[account] == nonce_map(
            requests_of(post.requests, account),
        ));
    }
    if has_account(pre.requests, sender) {
        assert(ledger_map(pre.requests)[sender] == nonce_map(requests_of(pre.requests, sender)));
    }
}

/// Submission is idempotent. While a request is live for a requester and a
/// nonce, the requester who asks again with that nonce is refused as a
/// duplicate before any payment moves; and a second request for the pair
/// that reaches `store_request` is refused and leaves the state, what can
/// be withdrawn and the ledger with it, as it was. Where it arrived as the
/// continuation of a confirmed collection, it is refused as a duplicate and
/// comes with the calls that return the payment.
pub proof fn law_duplicate_submission(
    live: OracleView,
    last: OracleView,
    sender: Seq<char>,
    nonce: u128,
    asking: ContextView,
    ctx: ContextView,
    outcomes: Seq<PromiseOutcome>,
    payment: u128,
    spec_id: Seq<char>,
    callback_address: Seq<char>,
    callback_method: Seq<char>,
    data_version: u128,
    data: Seq<char>,
    result: Result<(), RejectionView>,
)
    requires
        has_request(live.requests, sender, nonce),
        asking.predecessor_account_id == sender,
        live.store_step(
            last,
            ctx,
            outcomes,
            sender,
            payment,
            spec_id,
            callback_address,
            callback_method,
            nonce,
            data,
            result,
        ),
    ensures
        live.request_decision(
            asking,
            payment,
            spec_id,
            callback_address,
            callback_method,
            nonce,
            data_version,
            data,
        ) == Err::<ChainView, OracleError>(OracleError::DuplicateRequest),
        result is Err,
        last == live,
        is_continuation(ctx) && confirmed(outcomes) ==> result == Err::<(), RejectionView>(
            RejectionView {
                error: OracleError::DuplicateRequest,
                refund: Some(
                    live.refund_chain(ctx, sender, payment, OracleError::DuplicateRequest),
                ),
            },
        ),
{
}

/// The books balance: what can be withdrawn, together with what has been
/// paid out, is what the requests in the ledger have paid.
pub open spec fn books_balance(s: OracleView, paid_out: nat) -> bool {
    s.withdrawable_tokens + paid_out == payments_total(s.requests)
}

/// `post` follows `pre` by one operation that neither cleans a request up
/// nor resets the ledger, and `paid_out` is what that operation took off
/// the books: nothing, unless it is a confirmed withdrawal.
pub open spec fn accounted_step(pre: OracleView, post: OracleView, paid_out: nat) -> bool {
    ||| paid_out == 0 && post.requests == pre.requests && post.withdrawable_tokens
        == pre.withdrawable_tokens
    ||| paid_out == 0 && exists|sender: Seq<char>, nonce: u128, request: RequestView|
        pre.stored(post, sender, nonce, request)
    ||| paid_out <= pre.withdrawable_tokens && post == pre.withdrawn(paid_out as u128)
}

/// The sum of the first `n` items of `amounts`.
pub open spec fn paid_before(amounts: Seq<nat>, n: int) -> nat
    decreases n,
{
    if n <= 0 {
        0
    } else {
        paid_before(amounts, n - 1) + amounts[n - 1]
    }
}

/// Every call of `store_request`, of `post_withdraw`, of `add_authorization`
/// and of `remove_authorization` is an accounted step, and so is every call
/// that leaves the state as it was. Only a withdrawal that was confirmed
/// takes anything off the books.
pub proof fn law_operations_are_accounted(
    pre: OracleView,
    post: OracleView,
    ctx: ContextView,
    outcomes: Seq<PromiseOutcome>,
    sender: Seq<char>,
    payment: u128,
    spec_id: Seq<char>,
    callback_address: Seq<char>,
    callback_method: Seq<char>,
    nonce: u128,
    data: Seq<char>,
    stored: Result<(), RejectionView>,
    amount: u128,
    node: Seq<char>,
    result: Result<(), OracleError>,
)
    ensures
        post == pre ==> accounted_step(pre, post, 0),
        pre.store_step(
            post,
            ctx,
            outcomes,
            sender,
            payment,
            spec_id,
            callback_address,
            callback_method,
            nonce,
            data,
            stored,
        ) ==> accounted_step(pre, post, 0),
        pre.post_withdraw_step(post, ctx, outcomes, amount, result) ==> accounted_step(
            pre,
            post,
            if result is Ok {
                amount as nat
            } else {
                0
            },
        ),
        pre.add_authorization_step(post, ctx, node, result) ==> accounted_step(pre, post, 0),
        pre.remove_authorization_step(post, ctx, node, result) ==> accounted_step(pre, post, 0),
{
}

/// An accounted step keeps the books balanced.
pub proof fn law_accounted_step_balances(
    pre: OracleView,
    post: OracleView,
    paid_before_it: nat,
    paid_out: nat,
)
    requires
        books_balance(pre, paid_before_it),
        accounted_step(pre, post, paid_out),
    ensures
        books_balance(post, paid_before_it + paid_out),
{
}

/// Accounting is conserved. Take any history of the broker that starts with
/// nothing collected and no request, and in which every state follows the
/// one before by an accounted step. Then in every state of it what can be
/// withdrawn is the sum of the payments of the requests in the ledger minus
/// the sum of what was paid out before; it is never negative.
pub proof fn law_accounting_conservation(history: Seq<OracleView>, paid_out: Seq<nat>, at: int)
    requires
        history.len() == paid_out.len() + 1,
        history[0].withdrawable_tokens == 0,
        history[0].requests.len() == 0,
        forall|i: int|
            0 <= i < paid_out.len() ==> accounted_step(
                #[trigger] history[i],
                history[i + 1],
                paid_out[i],
            ),
        0 <= at < history.len(),
    ensures
        history[at].withdrawable_tokens == payments_total(history[at].requests) - paid_before(
            paid_out,
            at,
        ),
        history[at].withdrawable_tokens >= 0,
    decreases at,
{
    if at > 0 {
        law_accounting_conservation(history, paid_out, at - 1);
        assert(accounted_step(history[at - 1], history[at - 1 + 1], paid_out[at - 1]));
        law_accounted_step_balances(
            history[at - 1],
            history[at],
            paid_before(paid_out, at - 1),
            paid_out[at - 1],
        );
    }
}

/// Authorization is enforced. Whoever is neither an authorized node nor the
/// owner is refused by `fulfill_request` as unauthorized; whoever is not the
/// owner is refused as unauthorized by `withdraw`, `add_authorization`,
/// `remove_authorization` and `reset`, which then leave the state as it was.
pub proof fn law_authorization_enforced(
    s: OracleView,
    post: OracleView,
    ctx: ContextView,
    account: Seq<char>,
    nonce: u128,
    callback_address: Seq<char>,
    callback_method: Seq<char>,
    data: Seq<char>,
    recipient: Seq<char>,
    amount: u128,
    node: Seq<char>,
    result: Result<(), OracleError>,
)
    ensures
        !s.authorized_nodes.contains(ctx.signer_account_id) && ctx.signer_account_id != s.owner
            ==> s.fulfill_decision(ctx, account, nonce, callback_address, callback_method, data)
            == Err::<ChainView, OracleError>(OracleError::Unauthorized),
        ctx.signer_account_id != s.owner ==> s.withdraw_decision(ctx, recipient, amount) == Err::<
            ChainView,
            OracleError,
        >(OracleError::Unauthorized),
        ctx.signer_account_id != s.owner && (s.add_authorization_step(post, ctx, node, result)
            || s.remove_authorization_step(post, ctx, node, result) || s.reset_step(
            post,
            ctx,
            result,
        )) ==> result == Err::<(), OracleError>(OracleError::Unauthorized) && post == s,
{
}

/// Fulfillment cleans up. After `fulfillment_post_callback` has succeeded
/// for an account and a nonce, no request is stored for the pair, and no
/// page of the account's requests holds the nonce.
pub proof fn law_cleanup_on_fulfillment(
    pre: OracleView,
    post: OracleView,
    ctx: ContextView,
    outcomes: Seq<PromiseOutcome>,
    account: Seq<char>,
    nonce: u128,
    max: nat,
)
    requires
        pre.cleanup_step(post, ctx, outcomes, account, nonce, Ok(())),
    ensures
        !has_request(post.requests, account, nonce),
        !has_nonce(first_page(requests_of(post.requests, account), max), nonce),
{
    lemma_has_request_in_map(post.requests, account, nonce);
    lemma_has_request_in_map(pre.requests, account, nonce);
    let page = first_page(requests_of(post.requests, account), max);
    if has_nonce(page, nonce) {
        let k = nonce_index(page, nonce);
        assert(requests_of(post.requests, account)[k].0 == nonce);
    }
}

/// Pages are bounded, ordered and resumable. A summary page of at most `n`
/// accounts has at most `n` entries, in strictly ascending order of their
/// accounts. The page that is asked for after the last account of a page
/// continues it without overlap and without gap: the two together are the
/// page of at most `2 * n` accounts.
pub proof fn law_pagination(l: Seq<AccountListing>, n: nat)
    requires
        listing_ascending(l),
    ensures
        summaries_of(first_page(l, n)).len() <= n,
        forall|i: int, j: int|
            0 <= i < j < summaries_of(first_page(l, n)).len() ==> account_lt(
                (#[trigger] summaries_of(first_page(l, n))[i]).0,
                (#[trigger] summaries_of(first_page(l, n))[j]).0,
            ),
        summaries_of(first_page(l, n)).len() > 0 ==> summaries_of(first_page(l, n))
            + summaries_of(
            first_page(accounts_after(l, summaries_of(first_page(l, n)).last().0), n),
        ) == summaries_of(first_page(l, 2 * n)),
{
    let page = first_page(l, n);
    assert forall|i: int, j: int| 0 <= i < j < summaries_of(page).len() implies account_lt(
        (#[trigger] summaries_of(page)[i]).0,
        (#[trigger] summaries_of(page)[j]).0,
    ) by {
        assert(account_lt(l[i].account, l[j].account));
    }
    if page.len() > 0 {
        let m = page.len() as int;
        let cursor = summaries_of(page).last().0;
        assert(cursor == l[m - 1].account);
        assert forall|i: int| 0 <= i < m implies !account_lt(cursor, (#[trigger] l[i]).account) by {
            if i < m - 1 {
                assert(account_lt(l[i].account, l[m - 1].account));
                lemma_account_lt_asymmetric(l[i].account, cursor);
            } else {
                lemma_account_lt_irreflexive(cursor);
            }
        }
        assert forall|i: int| m <= i < l.len() implies account_lt(
            cursor,
            (#[trigger] l[i]).account,
        ) by {
            assert(account_lt(l[m - 1].account, l[i].account));
        }
        lemma_accounts_after(l, cursor, m);
        assert(summaries_of(page) + summaries_of(first_page(l.skip(m), n)) =~= summaries_of(
            first_page(l, 2 * n),
        ));
    }
}

} // verus!
