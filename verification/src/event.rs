//! The events that the registry reports.

use crate::account::{AccountId, Balance};
use vstd::prelude::*;

verus! {

/// What the registry reports after a successful change.
#[derive(Clone, Copy, Debug, PartialEq, Eq)]
pub enum Event {
    /// Tokens were minted. `value` is the number of tokens ever minted, this
    /// issuance included.
    Mint { owner: AccountId, value: Balance },
    /// A token changed hands.
    Transfer { from: Option<AccountId>, to: Option<AccountId>, token_id: u64 },
    /// A delegate was approved for a token (`approved`), or lost its approval.
    Approval { owner: AccountId, spender: AccountId, token_id: u64, approved: bool },
}

impl Event {
    /// Whether the event may be reported at all: a transfer names at least
    /// one party, never the same party twice and never token 0; a mint
    /// reports a positive total; an approval names two different accounts and
    /// a token other than 0.
    pub open spec fn valid(self) -> bool {
        match self {
            Event::Mint { value, .. } => value > 0,
            Event::Transfer { from, to, token_id } => {
                &&& from.is_some() || to.is_some()
                &&& from != to
                &&& token_id != 0
            },
            Event::Approval { owner, spender, token_id, .. } => {
                &&& owner != spender
                &&& token_id > 0
            },
        }
    }
}

} // verus!
