//! What the broker learns from the host about a call, and the calls that it
//! asks the host to make in return. A chain is two calls: the second is made
//! when the first has ended, and learns how it ended.

use vstd::prelude::*;

verus! {

/// The facts of one call, read by the host before the broker decides.
#[derive(Debug)]
pub struct CallContext {
    /// The account that the broker runs under.
    pub current_account_id: String,
    /// The account that signed the transaction.
    pub signer_account_id: String,
    /// The account that made this call.
    pub predecessor_account_id: String,
    /// The time of the block, in nanoseconds.
    pub block_timestamp: u64,
    /// The gas that came with the call.
    pub prepaid_gas: u64,
    /// The gas that the call has used so far.
    pub used_gas: u64,
}

/// A `CallContext` as plain values.
pub struct ContextView {
    pub current_account_id: Seq<char>,
    pub signer_account_id: Seq<char>,
    pub predecessor_account_id: Seq<char>,
    pub block_timestamp: u64,
    pub prepaid_gas: u64,
    pub used_gas: u64,
}

impl View for CallContext {
    type V = ContextView;

    open spec fn view(&self) -> ContextView {
        ContextView {
            current_account_id: self.current_account_id@,
            signer_account_id: self.signer_account_id@,
            predecessor_account_id: self.predecessor_account_id@,
            block_timestamp: self.block_timestamp,
            prepaid_gas: self.prepaid_gas,
            used_gas: self.used_gas,
        }
    }
}

/// How a call that the broker had asked for ended.
#[derive(Clone, Copy, PartialEq, Eq, Structural, Debug)]
pub enum PromiseOutcome {
    NotReady,
    Successful,
    Failed,
}

/// Exactly one call was waited for, and it succeeded.
pub open spec fn confirmed(outcomes: Seq<PromiseOutcome>) -> bool {
    outcomes.len() == 1 && outcomes[0] == PromiseOutcome::Successful
}

/// Whether exactly one call was waited for, and it succeeded.
pub fn is_confirmed(outcomes: &Vec<PromiseOutcome>) -> (yes: bool)
    ensures
        yes == confirmed(outcomes@),
{
    outcomes.len() == 1 && outcomes[0] == PromiseOutcome::Successful
}

/// The arguments of a call that the broker asks for, by the method called.
#[derive(Debug)]
pub enum CallArguments {
    /// For `transfer_from` of the token: collect `amount` from `owner_id`.
    TransferFrom { owner_id: String, new_owner_id: String, amount: u128 },
    /// For `transfer` of the token: pay `amount` out of `owner_id`.
    Transfer { owner_id: String, new_owner_id: String, amount: u128 },
    /// For the broker's own `store_request`.
    StoreRequest {
        sender: String,
        payment: u128,
        spec_id: String,
        callback_address: String,
        callback_method: String,
        nonce: u128,
        data_version: u128,
        data: String,
    },
    /// For `request` of the broker, called by a requester.
    Request {
        payment: u128,
        spec_id: String,
        callback_address: String,
        callback_method: String,
        nonce: u128,
        data_version: u128,
        data: String,
    },
    /// For the requester's callback: the answer.
    Deliver { price: String },
    /// For the broker's own `fulfillment_post_callback`.
    FulfillmentPostCallback { account: String, nonce: u128 },
    /// For the broker's own `post_withdraw`.
    PostWithdraw { amount: u128 },
    /// For the broker's own `panic`.
    Panic { error_message: String },
}

/// `CallArguments` as plain values.
pub enum ArgumentsView {
    TransferFrom { owner_id: Seq<char>, new_owner_id: Seq<char>, amount: u128 },
    Transfer { owner_id: Seq<char>, new_owner_id: Seq<char>, amount: u128 },
    StoreRequest {
        sender: Seq<char>,
        payment: u128,
        spec_id: Seq<char>,
        callback_address: Seq<char>,
        callback_method: Seq<char>,
        nonce: u128,
        data_version: u128,
        data: Seq<char>,
    },
    Request {
        payment: u128,
        spec_id: Seq<char>,
        callback_address: Seq<char>,
        callback_method: Seq<char>,
        nonce: u128,
        data_version: u128,
        data: Seq<char>,
    },
    Deliver { price: Seq<char> },
    FulfillmentPostCallback { account: Seq<char>, nonce: u128 },
    PostWithdraw { amount: u128 },
    Panic { error_message: Seq<char> },
}

impl View for CallArguments {
    type V = ArgumentsView;

    open spec fn view(&self) -> ArgumentsView {
        match self {
            CallArguments::TransferFrom { owner_id, new_owner_id, amount } => {
                ArgumentsView::TransferFrom {
                    owner_id: owner_id@,
                    new_owner_id: new_owner_id@,
                    amount: *amount,
                }
            },
            CallArguments::Transfer { owner_id, new_owner_id, amount } => {
                ArgumentsView::Transfer {
                    owner_id: owner_id@,
                    new_owner_id: new_owner_id@,
                    amount: *amount,
                }
            },
            CallArguments::StoreRequest {
                sender,
                payment,
                spec_id,
                callback_address,
                callback_method,
                nonce,
                data_version,
                data,
            } => {
                ArgumentsView::StoreRequest {
                    sender: sender@,
                    payment: *payment,
                    spec_id: spec_id@,
                    callback_address: callback_address@,
                    callback_method: callback_method@,
                    nonce: *nonce,
                    data_version: *data_version,
                    data: data@,
                }
            },
            CallArguments::Request {
                payment,
                spec_id,
                callback_address,
                callback_method,
                nonce,
                data_version,
                data,
            } => {
                ArgumentsView::Request {
                    payment: *payment,
                    spec_id: spec_id@,
                    callback_address: callback_address@,
                    callback_method: callback_method@,
                    nonce: *nonce,
                    data_version: *data_version,
                    data: data@,
                }
            },
            CallArguments::Deliver { price } => ArgumentsView::Deliver { price: price@ },
            CallArguments::FulfillmentPostCallback { account, nonce } => {
                ArgumentsView::FulfillmentPostCallback { account: account@, nonce: *nonce }
            },
            CallArguments::PostWithdraw { amount } => ArgumentsView::PostWithdraw {
                amount: *amount,
            },
            CallArguments::Panic { error_message } => ArgumentsView::Panic {
                error_message: error_message@,
            },
        }
    }
}

/// One call for the host to make.
#[derive(Debug)]
pub struct PromiseCall {
    /// The account whose method is called.
    pub account_id: String,
    /// The method.
    pub method_name: String,
    /// Its arguments.
    pub arguments: CallArguments,
    /// The deposit attached to the call.
    pub amount: u128,
    /// The gas attached to the call.
    pub gas: u64,
}

/// A `PromiseCall` as plain values.
pub struct CallView {
    pub account_id: Seq<char>,
    pub method_name: Seq<char>,
    pub arguments: ArgumentsView,
    pub amount: u128,
    pub gas: u64,
}

impl View for PromiseCall {
    type V = CallView;

    open spec fn view(&self) -> CallView {
        CallView {
            account_id: self.account_id@,
            method_name: self.method_name@,
            arguments: self.arguments@,
            amount: self.amount,
            gas: self.gas,
        }
    }
}

/// Two calls for the host to make: `callback`, on the broker itself, when
/// `first` has ended. What `callback` returns is what the whole call returns.
#[derive(Debug)]
pub struct PromiseChain {
    pub first: PromiseCall,
    pub callback: PromiseCall,
}

/// A `PromiseChain` as plain values.
pub struct ChainView {
    pub first: CallView,
    pub callback: CallView,
}

impl View for PromiseChain {
    type V = ChainView;

    open spec fn view(&self) -> ChainView {
        ChainView { first: self.first@, callback: self.callback@ }
    }
}

} // verus!
