//! The broker: it takes paid requests, lets authorized nodes fulfill them,
//! and lets its owner withdraw what was collected. Each operation decides on
//! the state and the facts of the call alone; the calls to other accounts
//! that it asks for are returned as a chain for the host to make.

use crate::account::is_valid_account_id;
use crate::chain::{
    is_confirmed, CallArguments, CallContext, ChainView, PromiseCall, PromiseChain,
    PromiseOutcome,
};
use crate::error::OracleError;
use crate::ledger::{pages_of, pages_view, AccountPage, Ledger};
use crate::listing::{
    accounts_after, first_page, has_account, requests_of, summaries_of,
};
use crate::model::{
    is_continuation, OracleView, RejectionView, EXPIRY_TIME, MINIMUM_CONSUMER_GAS_LIMIT,
    SINGLE_CALL_GAS, TRANSFER_FROM_NEAR_COST,
};
use crate::registry::AuthorizedNodes;
use crate::request::{requests_view, summaries_view, OracleRequest, RequestsJSON, SummaryJSON};
use vstd::prelude::*;
use vstd::string::StringExecFns;

verus! {

/// The state of the broker. It is read through the methods of the broker
/// and changed by them alone.
#[derive(Debug)]
pub struct Oracle {
    owner: String,
    link_account: String,
    withdrawable_tokens: u128,
    requests: Ledger,
    authorized_nodes: AuthorizedNodes,
}

impl View for Oracle {
    type V = OracleView;

    closed spec fn view(&self) -> OracleView {
        OracleView {
            owner: self.owner@,
            link_account: self.link_account@,
            withdrawable_tokens: self.withdrawable_tokens,
            requests: self.requests@,
            authorized_nodes: self.authorized_nodes@,
        }
    }
}

/// A refusal of `store_request`: the error, and the calls that return the
/// payment where one was collected.
#[derive(Debug)]
pub struct StoreRejection {
    pub error: OracleError,
    pub refund: Option<PromiseChain>,
}

impl View for StoreRejection {
    type V = RejectionView;

    open spec fn view(&self) -> RejectionView {
        RejectionView {
            error: self.error,
            refund: match self.refund {
                Some(chain) => Some(chain@),
                None => None,
            },
        }
    }
}

/// What a call that asks for a chain answered, as plain values.
pub open spec fn chain_result(r: Result<PromiseChain, OracleError>) -> Result<
    ChainView,
    OracleError,
> {
    match r {
        Ok(chain) => Ok(chain@),
        Err(e) => Err(e),
    }
}

/// What `store_request` answered, as plain values.
pub open spec fn store_result(r: Result<(), StoreRejection>) -> Result<(), RejectionView> {
    match r {
        Ok(()) => Ok(()),
        Err(rejection) => Err(rejection@),
    }
}

impl Oracle {
    /// Sets the broker up for the token account `link_id` and the owner
    /// `owner_id`. `state_exists` says whether a state was stored before.
    pub fn new(link_id: String, owner_id: String, state_exists: bool) -> (r: Result<
        Oracle,
        OracleError,
    >)
        ensures
            match r {
                Ok(oracle) => OracleView::creation_refusal(link_id@, owner_id@, state_exists)
                    is None && oracle@ == OracleView::created(link_id@, owner_id@),
                Err(e) => OracleView::creation_refusal(link_id@, owner_id@, state_exists) == Some(
                    e,
                ),
            },
    {
        if !is_valid_account_id(&owner_id) {
            return Err(OracleError::InvalidIdentity);
        }
        if !is_valid_account_id(&link_id) {
            return Err(OracleError::InvalidIdentity);
        }
        if state_exists {
            return Err(OracleError::AlreadyInitialized);
        }
        Ok(
            Oracle {
                owner: owner_id,
                link_account: link_id,
                withdrawable_tokens: 0,
                requests: Ledger::new(),
                authorized_nodes: AuthorizedNodes::new(),
            },
        )
    }

    /// The broker with the state that the host had stored for it.
    pub fn from_parts(
        owner: String,
        link_account: String,
        withdrawable_tokens: u128,
        requests: Ledger,
        authorized_nodes: AuthorizedNodes,
    ) -> (oracle: Oracle)
        ensures
            oracle@ == (OracleView {
                owner: owner@,
                link_account: link_account@,
                withdrawable_tokens,
                requests: requests@,
                authorized_nodes: authorized_nodes@,
            }),
    {
        Oracle { owner, link_account, withdrawable_tokens, requests, authorized_nodes }
    }

    /// The identity that manages the broker.
    pub fn owner(&self) -> (owner: &String)
        ensures
            owner@ == self@.owner,
    {
        &self.owner
    }

    /// The account of the token in which requests are paid.
    pub fn link_account(&self) -> (link_account: &String)
        ensures
            link_account@ == self@.link_account,
    {
        &self.link_account
    }

    /// The outstanding requests.
    pub fn requests(&self) -> (requests: &Ledger)
        ensures
            requests@ == self@.requests,
    {
        &self.requests
    }

    /// The nodes that may fulfill requests.
    pub fn authorized_nodes(&self) -> (nodes: &AuthorizedNodes)
        ensures
            nodes@ == self@.authorized_nodes,
    {
        &self.authorized_nodes
    }

    fn has_available_funds(&self, amount: u128) -> (enough: bool)
        ensures
            enough == (amount <= self.withdrawable_tokens),
    {
        self.withdrawable_tokens >= amount
    }

    fn only_owner(&self, ctx: &CallContext) -> (yes: bool)
        ensures
            yes == self@.signed_by_owner(ctx@),
    {
        ctx.signer_account_id == self.owner
    }

    fn only_owner_predecessor(ctx: &CallContext) -> (yes: bool)
        ensures
            yes == is_continuation(ctx@),
    {
        ctx.predecessor_account_id == ctx.current_account_id
    }

    fn only_authorized_node(&self, ctx: &CallContext) -> (yes: bool)
        ensures
            yes == self@.is_authorized(ctx.signer_account_id@),
    {
        self.authorized_nodes.contains(&ctx.signer_account_id) || ctx.signer_account_id
            == self.owner
    }

    fn check_callback_address(&self, callback_address: &String) -> (usable: bool)
        ensures
            usable == (callback_address@ != self.link_account@),
    {
        !(*callback_address == self.link_account)
    }

    /// The calls that return `payment` to `sender` and end with `error`.
    fn refund(&self, ctx: &CallContext, sender: String, payment: u128, error: OracleError) -> (chain:
        PromiseChain)
        ensures
            chain@ == self@.refund_chain(ctx@, sender@, payment, error),
    {
        PromiseChain {
            first: PromiseCall {
                account_id: self.link_account.clone(),
                method_name: String::from_str("transfer"),
                arguments: CallArguments::Transfer {
                    owner_id: ctx.current_account_id.clone(),
                    new_owner_id: sender,
                    amount: payment,
                },
                amount: 0,
                gas: SINGLE_CALL_GAS,
            },
            callback: PromiseCall {
                account_id: ctx.current_account_id.clone(),
                method_name: String::from_str("panic"),
                arguments: CallArguments::Panic { error_message: error.message() },
                amount: 0,
                gas: SINGLE_CALL_GAS,
            },
        }
    }

    /// Takes a request of the caller, `ctx.predecessor_account_id`: decides
    /// whether it can be paid for, and if so asks for the payment to be
    /// collected and the request to be stored after that.
    pub fn request(
        &self,
        ctx: &CallContext,
        payment: u128,
        spec_id: String,
        callback_address: String,
        callback_method: String,
        nonce: u128,
        data_version: u128,
        data: String,
    ) -> (r: Result<PromiseChain, OracleError>)
        ensures
            chain_result(r) == self@.request_decision(
                ctx@,
                payment,
                spec_id@,
                callback_address@,
                callback_method@,
                nonce,
                data_version,
                data@,
            ),
    {
        if self.requests.contains(&ctx.predecessor_account_id, nonce) {
            return Err(OracleError::DuplicateRequest);
        }
        if !self.check_callback_address(&callback_address) {
            return Err(OracleError::InvalidIdentity);
        }
        if ctx.prepaid_gas < SINGLE_CALL_GAS || ctx.prepaid_gas - SINGLE_CALL_GAS < ctx.used_gas {
            return Err(OracleError::UpstreamCallFailed);
        }
        Ok(
            PromiseChain {
                first: PromiseCall {
                    account_id: self.link_account.clone(),
                    method_name: String::from_str("transfer_from"),
                    arguments: CallArguments::TransferFrom {
                        owner_id: ctx.predecessor_account_id.clone(),
                        new_owner_id: ctx.current_account_id.clone(),
                        amount: payment,
                    },
                    amount: TRANSFER_FROM_NEAR_COST,
                    gas: SINGLE_CALL_GAS,
                },
                callback: PromiseCall {
                    account_id: ctx.current_account_id.clone(),
                    method_name: String::from_str("store_request"),
                    arguments: CallArguments::StoreRequest {
                        sender: ctx.predecessor_account_id.clone(),
                        payment,
                        spec_id,
                        callback_address,
                        callback_method,
                        nonce,
                        data_version,
                        data,
                    },
                    amount: 0,
                    gas: ctx.prepaid_gas - SINGLE_CALL_GAS - ctx.used_gas,
                },
            },
        )
    }

    /// The second call of the chain that `request` starts: stores the request
    /// of `sender` and credits its payment, once the payment was collected.
    /// `outcomes` tells how the collection ended. A refusal changes nothing;
    /// where the payment had been collected, it comes with the calls that
    /// return it.
    pub fn store_request(
        &mut self,
        ctx: &CallContext,
        outcomes: &Vec<PromiseOutcome>,
        sender: String,
        payment: u128,
        spec_id: String,
        callback_address: String,
        callback_method: String,
        nonce: u128,
        data_version: u128,
        data: String,
    ) -> (r: Result<(), StoreRejection>)
        ensures
            old(self)@.store_step(
                final(self)@,
                ctx@,
                outcomes@,
                sender@,
                payment,
                spec_id@,
                callback_address@,
                callback_method@,
                nonce,
                data@,
                store_result(r),
            ),
    {
        if !Self::only_owner_predecessor(ctx) {
            return Err(StoreRejection { error: OracleError::Unauthorized, refund: None });
        }
        if !is_confirmed(outcomes) {
            return Err(StoreRejection { error: OracleError::PaymentTransferFailed, refund: None });
        }
        if self.requests.contains(&sender, nonce) {
            let refund = self.refund(ctx, sender, payment, OracleError::DuplicateRequest);
            return Err(StoreRejection { error: OracleError::DuplicateRequest, refund: Some(refund) });
        }
        let expiration = ctx.block_timestamp.checked_add(EXPIRY_TIME);
        let credited = self.withdrawable_tokens.checked_add(payment);
        match (expiration, credited) {
            (Some(expiration), Some(credited)) => {
                let oracle_request = OracleRequest {
                    caller_account: sender.clone(),
                    request_spec: spec_id,
                    callback_address,
                    callback_method,
                    data,
                    payment,
                    expiration,
                };
                self.requests.insert(sender, nonce, oracle_request);
                self.withdrawable_tokens = credited;
                proof {
                    use_type_invariant(&self.requests);
                }
                Ok(())
            },
            _ => {
                let refund = self.refund(ctx, sender, payment, OracleError::UpstreamCallFailed);
                Err(StoreRejection { error: OracleError::UpstreamCallFailed, refund: Some(refund) })
            },
        }
    }

    /// Delivers an answer: decides whether the signer may fulfill requests,
    /// and if so asks for the requester's callback to be called with `data`
    /// and the request of `account` and `nonce` to be cleaned up after that.
    /// The state does not change. `payment` and `expiration` repeat what
    /// the request was stored with and are not looked at.
    pub fn fulfill_request(
        &self,
        ctx: &CallContext,
        account: String,
        nonce: u128,
        payment: u128,
        callback_address: String,
        callback_method: String,
        expiration: u64,
        data: String,
    ) -> (r: Result<PromiseChain, OracleError>)
        ensures
            chain_result(r) == self@.fulfill_decision(
                ctx@,
                account@,
                nonce,
                callback_address@,
                callback_method@,
                data@,
            ),
    {
        if !self.only_authorized_node(ctx) {
            return Err(OracleError::Unauthorized);
        }
        if ctx.prepaid_gas < ctx.used_gas || ctx.prepaid_gas - ctx.used_gas
            <= MINIMUM_CONSUMER_GAS_LIMIT {
            return Err(OracleError::UpstreamCallFailed);
        }
        Ok(
            PromiseChain {
                first: PromiseCall {
                    account_id: callback_address,
                    method_name: callback_method,
                    arguments: CallArguments::Deliver { price: data },
                    amount: 0,
                    gas: SINGLE_CALL_GAS,
                },
                callback: PromiseCall {
                    account_id: ctx.current_account_id.clone(),
                    method_name: String::from_str("fulfillment_post_callback"),
                    arguments: CallArguments::FulfillmentPostCallback { account, nonce },
                    amount: 0,
                    gas: SINGLE_CALL_GAS,
                },
            },
        )
    }

    /// The second call of the chain that `fulfill_request` starts: takes the
    /// request of `account` and `nonce` out of the ledger, once the
    /// requester's callback has succeeded. `outcomes` tells how the callback
    /// ended; where it failed, the request stays.
    pub fn fulfillment_post_callback(
        &mut self,
        ctx: &CallContext,
        outcomes: &Vec<PromiseOutcome>,
        account: String,
        nonce: u128,
    ) -> (r: Result<(), OracleError>)
        ensures
            old(self)@.cleanup_step(final(self)@, ctx@, outcomes@, account@, nonce, r),
    {
        if !Self::only_owner_predecessor(ctx) {
            return Err(OracleError::Unauthorized);
        }
        if !is_confirmed(outcomes) {
            return Err(OracleError::UpstreamCallFailed);
        }
        self.requests.remove(&account, nonce);
        proof {
            use_type_invariant(&self.requests);
        }
        Ok(())
    }

    /// Whether `node` may fulfill requests: the owner has authorized it, or
    /// it is the owner.
    pub fn is_authorized(&self, node: String) -> (yes: bool)
        ensures
            yes == self@.is_authorized(node@),
    {
        self.authorized_nodes.contains(&node) || node == self.owner
    }

    /// Authorizes `node` to fulfill requests. Reserved for the owner.
    pub fn add_authorization(&mut self, ctx: &CallContext, node: String) -> (r: Result<
        (),
        OracleError,
    >)
        ensures
            old(self)@.add_authorization_step(final(self)@, ctx@, node@, r),
    {
        if !self.only_owner(ctx) {
            return Err(OracleError::Unauthorized);
        }
        if !is_valid_account_id(&node) {
            return Err(OracleError::InvalidIdentity);
        }
        self.authorized_nodes.insert(node);
        Ok(())
    }

    /// Withdraws the authorization of `node`. Reserved for the owner.
    pub fn remove_authorization(&mut self, ctx: &CallContext, node: String) -> (r: Result<
        (),
        OracleError,
    >)
        ensures
            old(self)@.remove_authorization_step(final(self)@, ctx@, node@, r),
    {
        if !self.only_owner(ctx) {
            return Err(OracleError::Unauthorized);
        }
        self.authorized_nodes.remove(&node);
        Ok(())
    }

    /// Pays `amount` of what was collected to `recipient`: decides whether
    /// the owner asks and the amount is there, and if so asks for the
    /// transfer and for the books to be updated after that. The state does
    /// not change.
    pub fn withdraw(&self, ctx: &CallContext, recipient: String, amount: u128) -> (r: Result<
        PromiseChain,
        OracleError,
    >)
        ensures
            chain_result(r) == self@.withdraw_decision(ctx@, recipient@, amount),
    {
        if !self.only_owner(ctx) {
            return Err(OracleError::Unauthorized);
        }
        if !is_valid_account_id(&recipient) {
            return Err(OracleError::InvalidIdentity);
        }
        if !self.has_available_funds(amount) {
            return Err(OracleError::InsufficientBalance);
        }
        Ok(
            PromiseChain {
                first: PromiseCall {
                    account_id: self.link_account.clone(),
                    method_name: String::from_str("transfer"),
                    arguments: CallArguments::Transfer {
                        owner_id: ctx.current_account_id.clone(),
                        new_owner_id: recipient,
                        amount,
                    },
                    amount: 0,
                    gas: SINGLE_CALL_GAS,
                },
                callback: PromiseCall {
                    account_id: ctx.current_account_id.clone(),
                    method_name: String::from_str("post_withdraw"),
                    arguments: CallArguments::PostWithdraw { amount },
                    amount: 0,
                    gas: SINGLE_CALL_GAS * 2,
                },
            },
        )
    }

    /// The second call of the chain that `withdraw` starts: takes `amount`
    /// off what can be withdrawn, once the transfer has succeeded.
    /// `outcomes` tells how the transfer ended; where it failed, the books
    /// stay as they are.
    pub fn post_withdraw(&mut self, ctx: &CallContext, outcomes: &Vec<PromiseOutcome>, amount: u128) -> (r:
        Result<(), OracleError>)
        ensures
            old(self)@.post_withdraw_step(final(self)@, ctx@, outcomes@, amount, r),
    {
        if !Self::only_owner_predecessor(ctx) {
            return Err(OracleError::Unauthorized);
        }
        if !is_confirmed(outcomes) {
            return Err(OracleError::UpstreamCallFailed);
        }
        if !self.has_available_funds(amount) {
            return Err(OracleError::InsufficientBalance);
        }
        self.withdrawable_tokens = self.withdrawable_tokens - amount;
        Ok(())
    }

    /// The first `max_num_accounts` accounts in ascending order, each with
    /// the number of its requests.
    pub fn get_requests_summary(&self, max_num_accounts: u64) -> (page: Vec<SummaryJSON>)
        ensures
            summaries_view(page@) == summaries_of(first_page(self@.requests, max_num_accounts as nat)),
    {
        self.requests.summary(max_num_accounts)
    }

    /// The first `max_num_accounts` of the accounts that come after
    /// `from_account`, in ascending order, each with the number of its
    /// requests.
    pub fn get_requests_summary_from(&self, from_account: String, max_num_accounts: u64) -> (page:
        Vec<SummaryJSON>)
        ensures
            summaries_view(page@) == summaries_of(
                first_page(accounts_after(self@.requests, from_account@), max_num_accounts as nat),
            ),
    {
        self.requests.summary_from(&from_account, max_num_accounts)
    }

    /// The first `max_requests` requests of `account` in ascending order of
    /// their nonces. An account that the ledger does not know is refused.
    pub fn get_requests(&self, account: String, max_requests: u64) -> (r: Result<
        Vec<RequestsJSON>,
        OracleError,
    >)
        ensures
            match r {
                Ok(page) => has_account(self@.requests, account@) && requests_view(page@)
                    == first_page(requests_of(self@.requests, account@), max_requests as nat),
                Err(e) => !has_account(self@.requests, account@) && e
                    == OracleError::NoRequestsForAccount,
            },
    {
        match self.requests.requests_page(&account, max_requests) {
            Some(page) => Ok(page),
            None => Err(OracleError::NoRequestsForAccount),
        }
    }

    /// The first `max_num_accounts` accounts in ascending order, each with
    /// the first `max_requests` of its requests.
    pub fn get_all_requests(&self, max_num_accounts: u64, max_requests: u64) -> (pages: Vec<
        AccountPage,
    >)
        ensures
            pages_view(pages@) == pages_of(
                self@.requests,
                max_num_accounts as nat,
                max_requests as nat,
            ),
    {
        self.requests.all_requests(max_num_accounts, max_requests)
    }

    /// What has been collected and not yet withdrawn.
    pub fn get_withdrawable_tokens(&self) -> (amount: u128)
        ensures
            amount == self@.withdrawable_tokens,
    {
        self.withdrawable_tokens
    }

    /// Forgets every request. Reserved for the owner.
    pub fn reset(&mut self, ctx: &CallContext) -> (r: Result<(), OracleError>)
        ensures
            old(self)@.reset_step(final(self)@, ctx@, r),
    {
        if !self.only_owner(ctx) {
            return Err(OracleError::Unauthorized);
        }
        self.requests.clear();
        Ok(())
    }

    /// The last call of a chain that returns a payment: hands back the
    /// message that the whole call is to fail with. Only the broker itself
    /// may call it.
    pub fn panic(&self, ctx: &CallContext, error_message: String) -> (r: Result<
        String,
        OracleError,
    >)
        ensures
            match r {
                Ok(message) => is_continuation(ctx@) && message@ == error_message@,
                Err(e) => !is_continuation(ctx@) && e == OracleError::Unauthorized,
            },
    {
        if !Self::only_owner_predecessor(ctx) {
            return Err(OracleError::Unauthorized);
        }
        Ok(error_message)
    }

    /// The authorized nodes, in the order in which they were added.
    pub fn get_all_authorizations(&self) -> (nodes: Vec<String>)
        ensures
            nodes@.len() == self@.authorized_nodes.len(),
            forall|i: int|
                0 <= i < nodes@.len() ==> (#[trigger] nodes@[i])@ == self@.authorized_nodes[i],
    {
        self.authorized_nodes.to_vec()
    }
}

} // verus!
