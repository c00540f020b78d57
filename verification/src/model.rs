//! The rules of the broker, stated over plain values: for each operation,
//! when it is refused and with which error, which calls it asks for, and how
//! the state after it relates to the state before.
//!
//! A request passes through four operations. `request` decides whether it
//! can be taken, and asks for its payment to be collected. `store_request`
//! records it once the payment was collected, or has the payment returned.
//! `fulfill_request` has an answer delivered to the requester's callback.
//! `fulfillment_post_callback` takes the record out once the callback has
//! succeeded; where it failed, the record stays. A withdrawal passes through
//! `withdraw` and `post_withdraw` in the same way. The second operation of
//! each pair is a continuation: only the broker itself may call it, and it
//! goes ahead only where the call before it was confirmed.

use crate::account::well_formed_account_id;
use crate::chain::{confirmed, ArgumentsView, CallView, ChainView, ContextView, PromiseOutcome};
use crate::error::OracleError;
use crate::listing::{
    has_request, ledger_map, listing_ascending, payments_total, request_at, requests_of,
    AccountListing,
};
use crate::nonces::nonce_map;
use crate::registry::{with_node, without_node};
use crate::request::RequestView;
use vstd::prelude::*;

verus! {

/// How long a request stays fresh, in nanoseconds: five minutes.
pub const EXPIRY_TIME: u64 = 5 * 60 * 1000_000_000;

/// The gas that must be left for the requester's callback.
pub const MINIMUM_CONSUMER_GAS_LIMIT: u64 = 1000_000_000;

/// The gas attached to one call of a chain.
pub const SINGLE_CALL_GAS: u64 = 20_000_000_000_000;

/// The deposit attached to the call that collects a payment.
pub const TRANSFER_FROM_NEAR_COST: u128 = 36_500_000_000_000_000_000_000;

/// The state of the broker as plain values.
pub struct OracleView {
    /// The identity that manages the broker.
    pub owner: Seq<char>,
    /// The account of the token in which requests are paid.
    pub link_account: Seq<char>,
    /// What has been collected and not yet withdrawn.
    pub withdrawable_tokens: u128,
    /// The outstanding requests, accounts and nonces ascending.
    pub requests: Seq<AccountListing>,
    /// The nodes that may fulfill requests, in the order they were added.
    pub authorized_nodes: Seq<Seq<char>>,
}

/// A refusal of `store_request`: the error, and the calls that return a
/// payment which was collected for a request that is not stored.
pub struct RejectionView {
    pub error: OracleError,
    pub refund: Option<ChainView>,
}

/// The call was made by the broker itself, as the second call of a chain.
pub open spec fn is_continuation(ctx: ContextView) -> bool {
    ctx.predecessor_account_id == ctx.current_account_id
}

/// Why a continuation is refused before it looks at the state: it was not
/// called by the broker itself, or the call it follows was not confirmed.
pub open spec fn continuation_refusal(ctx: ContextView, outcomes: Seq<PromiseOutcome>) -> Option<
    OracleError,
> {
    if !is_continuation(ctx) {
        Some(OracleError::Unauthorized)
    } else if !confirmed(outcomes) {
        Some(OracleError::UpstreamCallFailed)
    } else {
        None
    }
}

/// The record that `store_request` writes.
pub open spec fn stored_request(
    ctx: ContextView,
    sender: Seq<char>,
    payment: u128,
    spec_id: Seq<char>,
    callback_address: Seq<char>,
    callback_method: Seq<char>,
    data: Seq<char>,
) -> RequestView {
    RequestView {
        caller_account: sender,
        request_spec: spec_id,
        callback_address,
        callback_method,
        data,
        payment,
        expiration: (ctx.block_timestamp + EXPIRY_TIME) as u64,
    }
}

/// The calls that fulfill a request: the requester's callback with the
/// answer, then the broker's own cleanup for the pair of account and nonce.
pub open spec fn fulfill_chain(
    ctx: ContextView,
    account: Seq<char>,
    nonce: u128,
    callback_address: Seq<char>,
    callback_method: Seq<char>,
    data: Seq<char>,
) -> ChainView {
    ChainView {
        first: CallView {
            account_id: callback_address,
            method_name: callback_method,
            arguments: ArgumentsView::Deliver { price: data },
            amount: 0,
            gas: SINGLE_CALL_GAS,
        },
        callback: CallView {
            account_id: ctx.current_account_id,
            method_name: "fulfillment_post_callback"@,
            arguments: ArgumentsView::FulfillmentPostCallback { account, nonce },
            amount: 0,
            gas: SINGLE_CALL_GAS,
        },
    }
}

impl OracleView {
    /// What every state of the broker satisfies: accounts and nonces
    /// ascend, and no node is listed twice.
    pub open spec fn valid(self) -> bool {
        listing_ascending(self.requests) && self.authorized_nodes.no_duplicates()
    }

    /// `node` may fulfill requests: the owner has authorized it, or it is
    /// the owner.
    pub open spec fn is_authorized(self, node: Seq<char>) -> bool {
        self.authorized_nodes.contains(node) || node == self.owner
    }

    /// The call comes from the owner: the owner signed it.
    pub open spec fn signed_by_owner(self, ctx: ContextView) -> bool {
        ctx.signer_account_id == self.owner
    }

    /// Why the broker cannot be set up with these accounts.
    pub open spec fn creation_refusal(
        link_id: Seq<char>,
        owner_id: Seq<char>,
        state_exists: bool,
    ) -> Option<OracleError> {
        if !well_formed_account_id(owner_id) || !well_formed_account_id(link_id) {
            Some(OracleError::InvalidIdentity)
        } else if state_exists {
            Some(OracleError::AlreadyInitialized)
        } else {
            None
        }
    }

    /// The broker as it is set up: nothing collected, no request, no node.
    pub open spec fn created(link_id: Seq<char>, owner_id: Seq<char>) -> OracleView {
        OracleView {
            owner: owner_id,
            link_account: link_id,
            withdrawable_tokens: 0,
            requests: Seq::empty(),
            authorized_nodes: Seq::empty(),
        }
    }

    /// Why a request of the caller is refused before any payment moves:
    /// a request is stored for the caller and `nonce` already, the answer
    /// would go to the token account, or the gas does not cover the chain.
    pub open spec fn request_refusal(
        self,
        ctx: ContextView,
        callback_address: Seq<char>,
        nonce: u128,
    ) -> Option<OracleError> {
        if has_request(self.requests, ctx.predecessor_account_id, nonce) {
            Some(OracleError::DuplicateRequest)
        } else if callback_address == self.link_account {
            Some(OracleError::InvalidIdentity)
        } else if ctx.prepaid_gas - SINGLE_CALL_GAS - ctx.used_gas < 0 {
            Some(OracleError::UpstreamCallFailed)
        } else {
            None
        }
    }

    /// The calls that a request asks for: collect the payment from the
    /// caller into the broker's balance, then store the request.
    pub open spec fn request_chain(
        self,
        ctx: ContextView,
        payment: u128,
        spec_id: Seq<char>,
        callback_address: Seq<char>,
        callback_method: Seq<char>,
        nonce: u128,
        data_version: u128,
        data: Seq<char>,
    ) -> ChainView {
        ChainView {
            first: CallView {
                account_id: self.link_account,
                method_name: "transfer_from"@,
                arguments: ArgumentsView::TransferFrom {
                    owner_id: ctx.predecessor_account_id,
                    new_owner_id: ctx.current_account_id,
                    amount: payment,
                },
                amount: TRANSFER_FROM_NEAR_COST,
                gas: SINGLE_CALL_GAS,
            },
            callback: CallView {
                account_id: ctx.current_account_id,
                method_name: "store_request"@,
                arguments: ArgumentsView::StoreRequest {
                    sender: ctx.predecessor_account_id,
                    payment,
                    spec_id,
                    callback_address,
                    callback_method,
                    nonce,
                    data_version,
                    data,
                },
                amount: 0,
                gas: (ctx.prepaid_gas - SINGLE_CALL_GAS - ctx.used_gas) as u64,
            },
        }
    }

    /// What `request` answers: the refusal, or the calls it asks for.
    pub open spec fn request_decision(
        self,
        ctx: ContextView,
        payment: u128,
        spec_id: Seq<char>,
        callback_address: Seq<char>,
        callback_method: Seq<char>,
        nonce: u128,
        data_version: u128,
        data: Seq<char>,
    ) -> Result<ChainView, OracleError> {
        match self.request_refusal(ctx, callback_address, nonce) {
            Some(e) => Err(e),
            None => Ok(
                self.request_chain(
                    ctx,
                    payment,
                    spec_id,
                    callback_address,
                    callback_method,
                    nonce,
                    data_version,
                    data,
                ),
            ),
        }
    }

    /// The calls that return a collected payment to `sender` and then end
    /// the chain with `error`.
    pub open spec fn refund_chain(
        self,
        ctx: ContextView,
        sender: Seq<char>,
        payment: u128,
        error: OracleError,
    ) -> ChainView {
        ChainView {
            first: CallView {
                account_id: self.link_account,
                method_name: "transfer"@,
                arguments: ArgumentsView::Transfer {
                    owner_id: ctx.current_account_id,
                    new_owner_id: sender,
                    amount: payment,
                },
                amount: 0,
                gas: SINGLE_CALL_GAS,
            },
            callback: CallView {
                account_id: ctx.current_account_id,
                method_name: "panic"@,
                arguments: ArgumentsView::Panic { error_message: error.message_text() },
                amount: 0,
                gas: SINGLE_CALL_GAS,
            },
        }
    }

    /// Why a paid request is not stored, and what becomes of the payment.
    /// A call from outside the chain, or after a collection that was not
    /// confirmed, is refused with nothing to return. A request for a pair
    /// that is taken, or one whose expiration or payment does not fit the
    /// books, is refused and its payment returned.
    pub open spec fn store_refusal(
        self,
        ctx: ContextView,
        outcomes: Seq<PromiseOutcome>,
        sender: Seq<char>,
        payment: u128,
        nonce: u128,
    ) -> Option<RejectionView> {
        if !is_continuation(ctx) {
            Some(RejectionView { error: OracleError::Unauthorized, refund: None })
        } else if !confirmed(outcomes) {
            Some(RejectionView { error: OracleError::PaymentTransferFailed, refund: None })
        } else if has_request(self.requests, sender, nonce) {
            Some(
                RejectionView {
                    error: OracleError::DuplicateRequest,
                    refund: Some(
                        self.refund_chain(ctx, sender, payment, OracleError::DuplicateRequest),
                    ),
                },
            )
        } else if ctx.block_timestamp + EXPIRY_TIME > u64::MAX || self.withdrawable_tokens
            + payment > u128::MAX {
            Some(
                RejectionView {
                    error: OracleError::UpstreamCallFailed,
                    refund: Some(
                        self.refund_chain(ctx, sender, payment, OracleError::UpstreamCallFailed),
                    ),
                },
            )
        } else {
            None
        }
    }

    /// `post` is `self` after `request` was stored for `sender` and `nonce`:
    /// the ledger holds one record more, the payment is credited, and
    /// nothing else has changed.
    pub open spec fn stored(
        self,
        post: OracleView,
        sender: Seq<char>,
        nonce: u128,
        request: RequestView,
    ) -> bool {
        &&& post.owner == self.owner
        &&& post.link_account == self.link_account
        &&& post.authorized_nodes == self.authorized_nodes
        &&& post.withdrawable_tokens == self.withdrawable_tokens + request.payment
        &&& listing_ascending(post.requests)
        &&& ledger_map(post.requests) == ledger_map(self.requests).insert(
            sender,
            nonce_map(requests_of(self.requests, sender)).insert(nonce, request),
        )
        &&& payments_total(post.requests) == payments_total(self.requests) + request.payment
    }

    /// One call of `store_request` that takes the state from `self` to
    /// `post` and answers `result`: the request is stored, or the call is
    /// refused and nothing has changed.
    pub open spec fn store_step(
        self,
        post: OracleView,
        ctx: ContextView,
        outcomes: Seq<PromiseOutcome>,
        sender: Seq<char>,
        payment: u128,
        spec_id: Seq<char>,
        callback_address: Seq<char>,
        callback_method: Seq<char>,
        nonce: u128,
        data: Seq<char>,
        result: Result<(), RejectionView>,
    ) -> bool {
        match result {
            Ok(()) => self.store_refusal(ctx, outcomes, sender, payment, nonce) is None
                && self.stored(
                post,
                sender,
                nonce,
                stored_request(
                    ctx,
                    sender,
                    payment,
                    spec_id,
                    callback_address,
                    callback_method,
                    data,
                ),
            ),
            Err(rejection) => self.store_refusal(ctx, outcomes, sender, payment, nonce) == Some(
                rejection,
            ) && post == self,
        }
    }

    /// Why a fulfillment is refused: the signer is no authorized node, or
    /// too little gas is left for the requester's callback.
    pub open spec fn fulfill_refusal(self, ctx: ContextView) -> Option<OracleError> {
        if !self.is_authorized(ctx.signer_account_id) {
            Some(OracleError::Unauthorized)
        } else if ctx.prepaid_gas - ctx.used_gas <= MINIMUM_CONSUMER_GAS_LIMIT {
            Some(OracleError::UpstreamCallFailed)
        } else {
            None
        }
    }

    /// What `fulfill_request` answers: the refusal, or the calls it asks for.
    pub open spec fn fulfill_decision(
        self,
        ctx: ContextView,
        account: Seq<char>,
        nonce: u128,
        callback_address: Seq<char>,
        callback_method: Seq<char>,
        data: Seq<char>,
    ) -> Result<ChainView, OracleError> {
        match self.fulfill_refusal(ctx) {
            Some(e) => Err(e),
            None => Ok(fulfill_chain(ctx, account, nonce, callback_address, callback_method, data)),
        }
    }

    /// `post` is `self` after the request for `account` and `nonce` was
    /// cleaned up: that record is gone, the account stays known, and
    /// nothing else has changed.
    pub open spec fn cleaned(self, post: OracleView, account: Seq<char>, nonce: u128) -> bool {
        &&& post.owner == self.owner
        &&& post.link_account == self.link_account
        &&& post.authorized_nodes == self.authorized_nodes
        &&& post.withdrawable_tokens == self.withdrawable_tokens
        &&& listing_ascending(post.requests)
        &&& if has_request(self.requests, account, nonce) {
            &&& ledger_map(post.requests) == ledger_map(self.requests).insert(
                account,
                nonce_map(requests_of(self.requests, account)).remove(nonce),
            )
            &&& payments_total(post.requests) + request_at(self.requests, account, nonce).payment
                == payments_total(self.requests)
        } else {
            post.requests == self.requests
        }
    }

    /// One call of `fulfillment_post_callback` that takes the state from
    /// `self` to `post` and answers `result`: the request is cleaned up, or
    /// the call is refused and nothing has changed.
    pub open spec fn cleanup_step(
        self,
        post: OracleView,
        ctx: ContextView,
        outcomes: Seq<PromiseOutcome>,
        account: Seq<char>,
        nonce: u128,
        result: Result<(), OracleError>,
    ) -> bool {
        match result {
            Ok(()) => continuation_refusal(ctx, outcomes) is None && self.cleaned(
                post,
                account,
                nonce,
            ),
            Err(e) => continuation_refusal(ctx, outcomes) == Some(e) && post == self,
        }
    }

    /// Why a withdrawal is refused before any funds move: the signer is not
    /// the owner, the recipient is no account, or the amount exceeds what
    /// has been collected.
    pub open spec fn withdraw_refusal(
        self,
        ctx: ContextView,
        recipient: Seq<char>,
        amount: u128,
    ) -> Option<OracleError> {
        if !self.signed_by_owner(ctx) {
            Some(OracleError::Unauthorized)
        } else if !well_formed_account_id(recipient) {
            Some(OracleError::InvalidIdentity)
        } else if amount > self.withdrawable_tokens {
            Some(OracleError::InsufficientBalance)
        } else {
            None
        }
    }

    /// The calls that a withdrawal asks for: pay the amount out of the
    /// broker's balance, then take it off the books.
    pub open spec fn withdraw_chain(self, ctx: ContextView, recipient: Seq<char>, amount: u128) -> ChainView {
        ChainView {
            first: CallView {
                account_id: self.link_account,
                method_name: "transfer"@,
                arguments: ArgumentsView::Transfer {
                    owner_id: ctx.current_account_id,
                    new_owner_id: recipient,
                    amount,
                },
                amount: 0,
                gas: SINGLE_CALL_GAS,
            },
            callback: CallView {
                account_id: ctx.current_account_id,
                method_name: "post_withdraw"@,
                arguments: ArgumentsView::PostWithdraw { amount },
                amount: 0,
                gas: (SINGLE_CALL_GAS * 2) as u64,
            },
        }
    }

    /// What `withdraw` answers: the refusal, or the calls it asks for.
    pub open spec fn withdraw_decision(
        self,
        ctx: ContextView,
        recipient: Seq<char>,
        amount: u128,
    ) -> Result<ChainView, OracleError> {
        match self.withdraw_refusal(ctx, recipient, amount) {
            Some(e) => Err(e),
            None => Ok(self.withdraw_chain(ctx, recipient, amount)),
        }
    }

    /// Why a withdrawal is not taken off the books: the call is no
    /// confirmed continuation, or the amount exceeds what is there.
    pub open spec fn post_withdraw_refusal(
        self,
        ctx: ContextView,
        outcomes: Seq<PromiseOutcome>,
        amount: u128,
    ) -> Option<OracleError> {
        if continuation_refusal(ctx, outcomes) is Some {
            continuation_refusal(ctx, outcomes)
        } else if amount > self.withdrawable_tokens {
            Some(OracleError::InsufficientBalance)
        } else {
            None
        }
    }

    /// `self` with `amount` taken off what can be withdrawn.
    pub open spec fn withdrawn(self, amount: u128) -> OracleView {
        OracleView {
            withdrawable_tokens: (self.withdrawable_tokens - amount) as u128,
            ..self
        }
    }

    /// One call of `post_withdraw` that takes the state from `self` to
    /// `post` and answers `result`: the amount is taken off the books, or
    /// the call is refused and nothing has changed.
    pub open spec fn post_withdraw_step(
        self,
        post: OracleView,
        ctx: ContextView,
        outcomes: Seq<PromiseOutcome>,
        amount: u128,
        result: Result<(), OracleError>,
    ) -> bool {
        match result {
            Ok(()) => self.post_withdraw_refusal(ctx, outcomes, amount) is None && post
                == self.withdrawn(amount),
            Err(e) => self.post_withdraw_refusal(ctx, outcomes, amount) == Some(e) && post == self,
        }
    }

    /// Why a node is not authorized: the signer is not the owner, or the
    /// node is no account.
    pub open spec fn authorization_refusal(self, ctx: ContextView, node: Seq<char>) -> Option<
        OracleError,
    > {
        if !self.signed_by_owner(ctx) {
            Some(OracleError::Unauthorized)
        } else if !well_formed_account_id(node) {
            Some(OracleError::InvalidIdentity)
        } else {
            None
        }
    }

    /// Why an operation reserved for the owner is refused.
    pub open spec fn owner_refusal(self, ctx: ContextView) -> Option<OracleError> {
        if !self.signed_by_owner(ctx) {
            Some(OracleError::Unauthorized)
        } else {
            None
        }
    }

    /// `self` with `node` authorized.
    pub open spec fn with_authorization(self, node: Seq<char>) -> OracleView {
        OracleView { authorized_nodes: with_node(self.authorized_nodes, node), ..self }
    }

    /// `self` with the authorization of `node` withdrawn.
    pub open spec fn without_authorization(self, node: Seq<char>) -> OracleView {
        OracleView { authorized_nodes: without_node(self.authorized_nodes, node), ..self }
    }

    /// `self` with every request forgotten.
    pub open spec fn cleared(self) -> OracleView {
        OracleView { requests: Seq::empty(), ..self }
    }

    /// One call of `add_authorization` that takes the state from `self` to
    /// `post` and answers `result`.
    pub open spec fn add_authorization_step(
        self,
        post: OracleView,
        ctx: ContextView,
        node: Seq<char>,
        result: Result<(), OracleError>,
    ) -> bool {
        match result {
            Ok(()) => self.authorization_refusal(ctx, node) is None && post
                == self.with_authorization(node),
            Err(e) => self.authorization_refusal(ctx, node) == Some(e) && post == self,
        }
    }

    /// One call of `remove_authorization` that takes the state from `self`
    /// to `post` and answers `result`.
    pub open spec fn remove_authorization_step(
        self,
        post: OracleView,
        ctx: ContextView,
        node: Seq<char>,
        result: Result<(), OracleError>,
    ) -> bool {
        match result {
            Ok(()) => self.owner_refusal(ctx) is None && post == self.without_authorization(node),
            Err(e) => self.owner_refusal(ctx) == Some(e) && post == self,
        }
    }

    /// One call of `reset` that takes the state from `self` to `post` and
    /// answers `result`.
    pub open spec fn reset_step(
        self,
        post: OracleView,
        ctx: ContextView,
        result: Result<(), OracleError>,
    ) -> bool {
        match result {
            Ok(()) => self.owner_refusal(ctx) is None && post == self.cleared(),
            Err(e) => self.owner_refusal(ctx) == Some(e) && post == self,
        }
    }
}

} // verus!
