//! The ways in which the broker refuses a call.

use vstd::prelude::*;
use vstd::string::StringExecFns;

verus! {

/// Why a call was refused. Every refusal is reported to the caller; none
/// ends the process.
#[derive(Clone, Copy, PartialEq, Eq, Structural, Debug)]
pub enum OracleError {
    /// The caller is not the identity that the operation is reserved for.
    Unauthorized,
    /// An account named in the call cannot be used there.
    InvalidIdentity,
    /// A request is already stored for the requester and nonce.
    DuplicateRequest,
    /// More was to be withdrawn than has been collected.
    InsufficientBalance,
    /// The ledger does not know the account whose requests were asked for.
    NoRequestsForAccount,
    /// The payment for a request was not collected.
    PaymentTransferFailed,
    /// A call that the broker depends on failed, was not confirmed, or
    /// cannot be paid for.
    UpstreamCallFailed,
    /// The broker was used before it was set up.
    NotInitialized,
    /// The broker was set up a second time.
    AlreadyInitialized,
}

impl OracleError {
    /// The text that `message` returns for each error.
    pub open spec fn message_text(self) -> Seq<char> {
        match self {
            OracleError::Unauthorized => "Only the account entitled to it can call this method."@,
            OracleError::InvalidIdentity => "Account ID is invalid."@,
            OracleError::DuplicateRequest => "Existing account and nonce in requests"@,
            OracleError::InsufficientBalance => "Amount requested is greater than withdrawable balance."@,
            OracleError::NoRequestsForAccount => "Account has no requests."@,
            OracleError::PaymentTransferFailed => "The payment was not transferred."@,
            OracleError::UpstreamCallFailed => "The promise failed. See receipt failures."@,
            OracleError::NotInitialized => "Oracle should be initialized before usage"@,
            OracleError::AlreadyInitialized => "Already initialized"@,
        }
    }

    /// The error in words, for the caller who has to report it.
    pub fn message(&self) -> (text: String)
        ensures
            text@ == self.message_text(),
    {
        match self {
            OracleError::Unauthorized => String::from_str(
                "Only the account entitled to it can call this method.",
            ),
            OracleError::InvalidIdentity => String::from_str("Account ID is invalid."),
            OracleError::DuplicateRequest => String::from_str(
                "Existing account and nonce in requests",
            ),
            OracleError::InsufficientBalance => String::from_str(
                "Amount requested is greater than withdrawable balance.",
            ),
            OracleError::NoRequestsForAccount => String::from_str("Account has no requests."),
            OracleError::PaymentTransferFailed => String::from_str(
                "The payment was not transferred.",
            ),
            OracleError::UpstreamCallFailed => String::from_str(
                "The promise failed. See receipt failures.",
            ),
            OracleError::NotInitialized => String::from_str(
                "Oracle should be initialized before usage",
            ),
            OracleError::AlreadyInitialized => String::from_str("Already initialized"),
        }
    }
}

} // verus!
