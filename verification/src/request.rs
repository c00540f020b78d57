//! The records of the request ledger and the entries of its read-only pages.

use vstd::prelude::*;

verus! {

/// One outstanding data request. A record is written once, when the payment
/// for it has been collected, and never changed afterwards.
#[derive(Debug)]
pub struct OracleRequest {
    /// The account that asked for the data and paid for it.
    pub caller_account: String,
    /// What is asked for, encoded.
    pub request_spec: String,
    /// The account whose method receives the answer.
    pub callback_address: String,
    /// The method that receives the answer.
    pub callback_method: String,
    /// The payload that came with the request, encoded.
    pub data: String,
    /// What was collected for the request.
    pub payment: u128,
    /// The block timestamp after which the request is stale.
    pub expiration: u64,
}

/// What an `OracleRequest` holds, as plain values.
pub struct RequestView {
    pub caller_account: Seq<char>,
    pub request_spec: Seq<char>,
    pub callback_address: Seq<char>,
    pub callback_method: Seq<char>,
    pub data: Seq<char>,
    pub payment: u128,
    pub expiration: u64,
}

impl View for OracleRequest {
    type V = RequestView;

    open spec fn view(&self) -> RequestView {
        RequestView {
            caller_account: self.caller_account@,
            request_spec: self.request_spec@,
            callback_address: self.callback_address@,
            callback_method: self.callback_method@,
            data: self.data@,
            payment: self.payment,
            expiration: self.expiration,
        }
    }
}

impl OracleRequest {
    /// Whether the request is stale at the time `block_timestamp`: its
    /// expiration has passed. The broker does not turn a stale request
    /// away; a node that fulfills requests can.
    pub fn is_stale(&self, block_timestamp: u64) -> (stale: bool)
        ensures
            stale == (block_timestamp > self@.expiration),
    {
        block_timestamp > self.expiration
    }
}

impl Default for OracleRequest {
    fn default() -> (request: Self)
        ensures
            request@ == (RequestView {
                caller_account: Seq::empty(),
                request_spec: Seq::empty(),
                callback_address: Seq::empty(),
                callback_method: Seq::empty(),
                data: Seq::empty(),
                payment: 0,
                expiration: 0,
            }),
    {
        OracleRequest {
            caller_account: String::new(),
            request_spec: String::new(),
            callback_address: String::new(),
            callback_method: String::new(),
            data: String::new(),
            payment: 0,
            expiration: 0,
        }
    }
}

impl Clone for OracleRequest {
    fn clone(&self) -> (copy: Self)
        ensures
            copy == *self,
    {
        OracleRequest {
            caller_account: self.caller_account.clone(),
            request_spec: self.request_spec.clone(),
            callback_address: self.callback_address.clone(),
            callback_method: self.callback_method.clone(),
            data: self.data.clone(),
            payment: self.payment,
            expiration: self.expiration,
        }
    }
}

/// One entry of a page of an account's requests: the nonce that the requester
/// chose, and the record stored under it.
#[derive(Debug)]
pub struct RequestsJSON {
    pub nonce: u128,
    pub request: OracleRequest,
}

impl View for RequestsJSON {
    type V = (u128, RequestView);

    open spec fn view(&self) -> (u128, RequestView) {
        (self.nonce, self.request@)
    }
}

impl Clone for RequestsJSON {
    fn clone(&self) -> (copy: Self)
        ensures
            copy == *self,
    {
        RequestsJSON { nonce: self.nonce, request: self.request.clone() }
    }
}

/// One entry of a summary page: an account and the number of requests that
/// the ledger holds for it.
#[derive(Debug)]
pub struct SummaryJSON {
    pub account: String,
    pub total_requests: u64,
}

impl View for SummaryJSON {
    type V = (Seq<char>, nat);

    open spec fn view(&self) -> (Seq<char>, nat) {
        (self.account@, self.total_requests as nat)
    }
}

/// The views of the entries of a page, in order.
pub open spec fn requests_view(page: Seq<RequestsJSON>) -> Seq<(u128, RequestView)> {
    Seq::new(page.len(), |i: int| page[i]@)
}

/// The views of the entries of a summary page, in order.
pub open spec fn summaries_view(page: Seq<SummaryJSON>) -> Seq<(Seq<char>, nat)> {
    Seq::new(page.len(), |i: int| page[i]@)
}

} // verus!
