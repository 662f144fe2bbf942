//! What callers ask of the registry, and how a call can fail.

use crate::account::AccountId;
use vstd::prelude::*;

verus! {

/// A call to the registry, with the account that makes it.
#[derive(Clone, Copy, Debug, PartialEq, Eq)]
pub enum Call {
    /// Mint `value` new tokens to `to`.
    Mint { caller: AccountId, to: AccountId, value: u64 },
    /// Transfer `token_id` from `caller` to `to`.
    Transfer { caller: AccountId, to: AccountId, token_id: u64 },
    /// Transfer `token_id` from its owner to `to`, `caller` being the owner
    /// or the approved delegate.
    TransferFrom { caller: AccountId, to: AccountId, token_id: u64 },
    /// Approve `to` as the delegate for `token_id`, or withdraw its approval.
    Approval { caller: AccountId, to: AccountId, token_id: u64, approved: bool },
}

/// Why a call was not done. Either way the registry is as it was before.
#[derive(Clone, Copy, Debug, PartialEq, Eq)]
pub enum Error {
    /// The call is not granted: the caller is neither owner nor delegate,
    /// the token does not exist, the approval to withdraw is not on record,
    /// or the count to mint is not taken.
    Rejected,
    /// The call would be granted but cannot be made: the event to report
    /// would be invalid. This is a fault of the caller's side, not an answer
    /// to give: the host is to stop.
    InternalInvariantViolation,
}

} // verus!
