//! The registry as a mathematical value, and what each operation makes of it.

use crate::account::{AccountId, Balance};
use crate::call::{Call, Error};
use crate::event::Event;
use vstd::prelude::*;
use vstd::set_lib::{lemma_len_subset, lemma_set_disjoint_lens};

verus! {

/// The tokens numbered above `lo`, up to and including `hi`.
pub open spec fn token_span(lo: int, hi: int) -> Set<u64> {
    Set::new(|t: u64| lo < t <= hi)
}

/// `owners`, with every token of `token_span(lo, hi)` given to `to`.
pub open spec fn with_tokens(owners: Map<u64, AccountId>, lo: int, hi: int, to: AccountId) -> Map<
    u64,
    AccountId,
> {
    Map::new(
        |t: u64| owners.contains_key(t) || lo < t <= hi,
        |t: u64|
            if lo < t <= hi {
                to
            } else {
                owners[t]
            },
    )
}

/// The complete record: who owns which token, how many tokens each account
/// holds, who is approved for which token, how many tokens were ever minted,
/// who created the registry, and the events reported and not yet collected.
pub struct Registry {
    pub owner: AccountId,
    pub total_minted: Balance,
    pub id_to_owner: Map<u64, AccountId>,
    pub owner_to_token_count: Map<AccountId, Balance>,
    pub approvals: Map<u64, AccountId>,
    pub events: Seq<Event>,
}

impl Registry {
    /// The registry as `owner` creates it: no token, no balance, no approval,
    /// no event.
    pub open spec fn created(owner: AccountId) -> Registry {
        Registry {
            owner,
            total_minted: 0,
            id_to_owner: Map::empty(),
            owner_to_token_count: Map::empty(),
            approvals: Map::empty(),
            events: Seq::empty(),
        }
    }

    /// The registry as `owner` deploys it: created, and then, where
    /// `init_value` is not 0, with that many tokens minted to `owner`.
    pub open spec fn deployed(owner: AccountId, init_value: u64) -> Registry {
        if init_value > 0 {
            Registry::created(owner).minted(owner, init_value)
        } else {
            Registry::created(owner)
        }
    }

    /// The owner of a token; `None` for a token that was never minted.
    pub open spec fn owner_of(self, token_id: u64) -> Option<AccountId> {
        if self.id_to_owner.contains_key(token_id) {
            Some(self.id_to_owner[token_id])
        } else {
            None
        }
    }

    /// The delegate approved for a token, if there is one.
    pub open spec fn approved_for(self, token_id: u64) -> Option<AccountId> {
        if self.approvals.contains_key(token_id) {
            Some(self.approvals[token_id])
        } else {
            None
        }
    }

    /// The recorded balance of an account; an account without a record holds
    /// nothing.
    pub open spec fn balance_of(self, account: AccountId) -> Balance {
        if self.owner_to_token_count.contains_key(account) {
            self.owner_to_token_count[account]
        } else {
            0
        }
    }

    /// The tokens that the ownership record gives to an account.
    pub open spec fn tokens_of(self, account: AccountId) -> Set<u64> {
        Set::new(|t: u64| self.owner_of(t) == Some(account))
    }

    /// Whether `account` owns `token_id`.
    pub open spec fn owns(self, account: AccountId, token_id: u64) -> bool {
        self.owner_of(token_id) == Some(account)
    }

    /// The invariant of the registry:
    /// the tokens that exist are exactly those numbered 1 to `total_minted`
    /// (so token 0 never exists); every recorded balance is the number of
    /// tokens that the ownership record gives the account; only existing
    /// tokens have an approved delegate; every reported event is valid.
    pub open spec fn wf(self) -> bool {
        &&& forall|t: u64| #[trigger]
            self.id_to_owner.contains_key(t) <==> 0 < t <= self.total_minted
        &&& forall|a: AccountId| #[trigger] self.balance_of(a) == self.tokens_of(a).len()
        &&& forall|t: u64| #[trigger]
            self.approvals.contains_key(t) ==> self.id_to_owner.contains_key(t)
        &&& forall|i: int| 0 <= i < self.events.len() ==> (#[trigger] self.events[i]).valid()
    }

    /// The registry with one more event reported.
    pub open spec fn emit(self, event: Event) -> Registry {
        Registry { events: self.events.push(event), ..self }
    }

    /// The registry once the reported events have been collected.
    pub open spec fn drained(self) -> Registry {
        Registry { events: Seq::empty(), ..self }
    }

    /// Whether `value` tokens can be minted: the count is positive and the
    /// new total still fits the counter.
    pub open spec fn mint_accepted(self, value: u64) -> bool {
        value > 0 && self.total_minted + value <= u64::MAX
    }

    /// The registry after `value` new tokens, numbered from
    /// `total_minted + 1` on, were given to `to`; the event is not reported
    /// yet.
    pub open spec fn issued(self, to: AccountId, value: u64) -> Registry {
        Registry {
            total_minted: (self.total_minted + value) as u64,
            id_to_owner: with_tokens(
                self.id_to_owner,
                self.total_minted as int,
                self.total_minted + value,
                to,
            ),
            owner_to_token_count: self.owner_to_token_count.insert(
                to,
                (self.balance_of(to) + value) as u64,
            ),
            ..self
        }
    }

    /// The registry after a successful mint of `value` tokens to `to`.
    pub open spec fn minted(self, to: AccountId, value: u64) -> Registry {
        self.issued(to, value).emit(
            Event::Mint { owner: to, value: (self.total_minted + value) as u64 },
        )
    }

    /// The registry after `token_id` went from `from` to `to`: the new owner
    /// is recorded, one token leaves the balance of `from` and one joins that
    /// of `to`, and the approval for the token, if any, is gone. The event is
    /// not reported yet.
    pub open spec fn moved(self, from: AccountId, to: AccountId, token_id: u64) -> Registry {
        let debited = Registry {
            owner_to_token_count: self.owner_to_token_count.insert(
                from,
                (self.balance_of(from) - 1) as u64,
            ),
            ..self
        };
        Registry {
            id_to_owner: self.id_to_owner.insert(token_id, to),
            owner_to_token_count: debited.owner_to_token_count.insert(
                to,
                (debited.balance_of(to) + 1) as u64,
            ),
            approvals: self.approvals.remove(token_id),
            ..self
        }
    }

    /// The registry after a successful transfer of `token_id` from `from` to
    /// `to`.
    pub open spec fn transferred(self, from: AccountId, to: AccountId, token_id: u64) -> Registry {
        self.moved(from, to, token_id).emit(
            Event::Transfer { from: Some(from), to: Some(to), token_id },
        )
    }

    /// Whether `caller` may move `token_id`: it owns the token, or the token
    /// exists and `caller` is its approved delegate.
    pub open spec fn may_transfer(self, caller: AccountId, token_id: u64) -> bool {
        ||| self.owns(caller, token_id)
        ||| self.id_to_owner.contains_key(token_id) && self.approved_for(token_id) == Some(caller)
    }

    /// Whether a change of approval by `caller` goes through: `caller` owns
    /// the token, and either a delegate is being approved, or the delegate
    /// whose approval is withdrawn is the one on record.
    pub open spec fn approval_accepted(
        self,
        caller: AccountId,
        to: AccountId,
        token_id: u64,
        approved: bool,
    ) -> bool {
        self.owns(caller, token_id) && (approved || self.approved_for(token_id) == Some(to))
    }

    /// The registry after the delegate of `token_id` was changed: with
    /// `approved`, `to` is the one delegate of the token, whoever was before;
    /// without, the token has no delegate. The event is not reported yet.
    pub open spec fn delegated(self, to: AccountId, token_id: u64, approved: bool) -> Registry {
        Registry {
            approvals: if approved {
                self.approvals.insert(token_id, to)
            } else {
                self.approvals.remove(token_id)
            },
            ..self
        }
    }

    /// The registry after a successful change of approval by `caller`.
    pub open spec fn approval_changed(
        self,
        caller: AccountId,
        to: AccountId,
        token_id: u64,
        approved: bool,
    ) -> Registry {
        self.delegated(to, token_id, approved).emit(
            Event::Approval { owner: caller, spender: to, token_id, approved },
        )
    }
}

impl Registry {
    /// Whether what `call` asks for is granted: the count of a mint is taken,
    /// the caller of a transfer owns the token or is its delegate, the caller
    /// of an approval owns the token and the approval withdrawn is on
    /// record.
    pub open spec fn accepts(self, call: Call) -> bool {
        match call {
            Call::Mint { value, .. } => self.mint_accepted(value),
            Call::Transfer { caller, token_id, .. } => self.owns(caller, token_id),
            Call::TransferFrom { caller, token_id, .. } => self.may_transfer(caller, token_id),
            Call::Approval { caller, to, token_id, approved } => self.approval_accepted(
                caller,
                to,
                token_id,
                approved,
            ),
        }
    }

    /// Whether `call` can be made at all: where it would be granted, the
    /// event to report must be valid. So a token cannot be transferred to
    /// the account that holds it, and an owner cannot be approved as its own
    /// delegate.
    pub open spec fn admits(self, call: Call) -> bool {
        match call {
            Call::Mint { .. } => true,
            Call::Transfer { caller, to, token_id } => self.owns(caller, token_id) ==> caller
                != to,
            Call::TransferFrom { caller, to, token_id } => self.may_transfer(caller, token_id)
                ==> !self.owns(to, token_id),
            Call::Approval { caller, to, token_id, approved } => self.approval_accepted(
                caller,
                to,
                token_id,
                approved,
            ) ==> caller != to,
        }
    }

    /// The event that `call` reports where it is done.
    pub open spec fn event_of(self, call: Call) -> Event {
        match call {
            Call::Mint { to, value, .. } => Event::Mint {
                owner: to,
                value: (self.total_minted + value) as u64,
            },
            Call::Transfer { caller, to, token_id } => Event::Transfer {
                from: Some(caller),
                to: Some(to),
                token_id,
            },
            Call::TransferFrom { to, token_id, .. } => Event::Transfer {
                from: self.owner_of(token_id),
                to: Some(to),
                token_id,
            },
            Call::Approval { caller, to, token_id, approved } => Event::Approval {
                owner: caller,
                spender: to,
                token_id,
                approved,
            },
        }
    }

    /// How `call` ends: rejected where it is not granted, a violation where
    /// it cannot be made, and done otherwise.
    pub open spec fn outcome(self, call: Call) -> Result<(), Error> {
        if !self.accepts(call) {
            Err(Error::Rejected)
        } else if !self.admits(call) {
            Err(Error::InternalInvariantViolation)
        } else {
            Ok(())
        }
    }

    /// The registry after `call`: changed as the call asks where it is done,
    /// and the same as before where it is not.
    pub open spec fn after(self, call: Call) -> Registry {
        if self.outcome(call).is_err() {
            self
        } else {
            match call {
                Call::Mint { to, value, .. } => self.minted(to, value),
                Call::Transfer { caller, to, token_id } => self.transferred(caller, to, token_id),
                Call::TransferFrom { to, token_id, .. } => self.transferred(
                    self.id_to_owner[token_id],
                    to,
                    token_id,
                ),
                Call::Approval { caller, to, token_id, approved } => self.approval_changed(
                    caller,
                    to,
                    token_id,
                    approved,
                ),
            }
        }
    }

    /// The registry after the calls of `calls`, made in order.
    pub open spec fn after_all(self, calls: Seq<Call>) -> Registry
        decreases calls.len(),
    {
        if calls.len() == 0 {
            self
        } else {
            self.after(calls[0]).after_all(calls.drop_first())
        }
    }
}

/// A span of `hi - lo` token numbers holds that many tokens.
pub proof fn lemma_token_span_len(lo: int, hi: int)
    requires
        0 <= lo <= hi <= u64::MAX,
    ensures
        token_span(lo, hi).finite(),
        token_span(lo, hi).len() == hi - lo,
    decreases hi - lo,
{
    if lo == hi {
        assert(token_span(lo, hi) =~= Set::empty());
    } else {
        lemma_token_span_len(lo, hi - 1);
        assert(token_span(lo, hi) =~= token_span(lo, hi - 1).insert(hi as u64));
    }
}

/// In a well-formed registry an account's tokens are finitely many, at most
/// as many as were ever minted.
pub proof fn lemma_tokens_of_bounded(r: Registry, account: AccountId)
    requires
        r.wf(),
    ensures
        r.tokens_of(account).finite(),
        r.tokens_of(account).len() <= r.total_minted,
        r.balance_of(account) <= r.total_minted,
{
    lemma_token_span_len(0, r.total_minted as int);
    lemma_len_subset(r.tokens_of(account), token_span(0, r.total_minted as int));
}

/// A newly created registry is well formed.
pub proof fn lemma_created_wf(owner: AccountId)
    ensures
        Registry::created(owner).wf(),
{
    let r = Registry::created(owner);
    assert forall|a: AccountId| #[trigger] r.balance_of(a) == r.tokens_of(a).len() by {
        assert(r.tokens_of(a) =~= Set::empty());
    }
}

/// Reporting a valid event keeps a registry well formed.
pub proof fn lemma_emit_wf(r: Registry, event: Event)
    requires
        r.wf(),
        event.valid(),
    ensures
        r.emit(event).wf(),
{
    let e = r.emit(event);
    assert forall|a: AccountId| #[trigger] e.balance_of(a) == e.tokens_of(a).len() by {
        assert(e.balance_of(a) == r.balance_of(a));
        assert(e.tokens_of(a) =~= r.tokens_of(a));
    }
}

/// Collecting the events keeps a registry well formed.
pub proof fn lemma_drained_wf(r: Registry)
    requires
        r.wf(),
    ensures
        r.drained().wf(),
{
    let d = r.drained();
    assert forall|a: AccountId| #[trigger] d.balance_of(a) == d.tokens_of(a).len() by {
        assert(d.balance_of(a) == r.balance_of(a));
        assert(d.tokens_of(a) =~= r.tokens_of(a));
    }
}

/// An accepted mint keeps the registry well formed, and the recipient's new
/// balance fits.
pub proof fn lemma_minted_wf(r: Registry, to: AccountId, value: u64)
    requires
        r.wf(),
        r.mint_accepted(value),
    ensures
        r.balance_of(to) + value <= u64::MAX,
        r.issued(to, value).wf(),
        r.minted(to, value).wf(),
{
    let s = r.issued(to, value);
    let fresh = token_span(r.total_minted as int, r.total_minted + value);
    lemma_tokens_of_bounded(r, to);
    lemma_token_span_len(r.total_minted as int, r.total_minted + value);
    assert forall|a: AccountId| #[trigger] s.balance_of(a) == s.tokens_of(a).len() by {
        assert(r.balance_of(a) == r.tokens_of(a).len());
        if a == to {
            assert(s.tokens_of(a) =~= r.tokens_of(a) + fresh);
            lemma_set_disjoint_lens(r.tokens_of(a), fresh);
        } else {
            assert(s.tokens_of(a) =~= r.tokens_of(a));
        }
    }
    lemma_emit_wf(s, Event::Mint { owner: to, value: (r.total_minted + value) as u64 });
}

/// Moving a token from its owner to another account keeps the registry well
/// formed; the owner holds at least that token, and the receiver's new
/// balance fits.
pub proof fn lemma_transferred_wf(r: Registry, from: AccountId, to: AccountId, token_id: u64)
    requires
        r.wf(),
        r.owns(from, token_id),
        from != to,
    ensures
        r.balance_of(from) >= 1,
        r.balance_of(to) < r.total_minted,
        r.moved(from, to, token_id).wf(),
        r.transferred(from, to, token_id).wf(),
{
    let s = r.moved(from, to, token_id);
    lemma_tokens_of_bounded(r, from);
    lemma_tokens_of_bounded(r, to);
    assert(s.tokens_of(from) =~= r.tokens_of(from).remove(token_id));
    assert(s.tokens_of(to) =~= r.tokens_of(to).insert(token_id));
    lemma_other_account_holds_fewer(r, to, token_id);
    assert forall|a: AccountId| #[trigger] s.balance_of(a) == s.tokens_of(a).len() by {
        assert(r.balance_of(a) == r.tokens_of(a).len());
        if a != from && a != to {
            assert(s.tokens_of(a) =~= r.tokens_of(a));
        }
    }
    lemma_emit_wf(s, Event::Transfer { from: Some(from), to: Some(to), token_id });
}

/// An account that does not own an existing token holds fewer tokens than
/// were ever minted.
proof fn lemma_other_account_holds_fewer(r: Registry, account: AccountId, token_id: u64)
    requires
        r.wf(),
        r.id_to_owner.contains_key(token_id),
        !r.owns(account, token_id),
    ensures
        r.tokens_of(account).len() < r.total_minted,
{
    let all = token_span(0, r.total_minted as int);
    let more = r.tokens_of(account).insert(token_id);
    lemma_token_span_len(0, r.total_minted as int);
    lemma_tokens_of_bounded(r, account);
    lemma_len_subset(more, all);
}

/// An accepted change of approval, whose event is valid, keeps the registry
/// well formed.
pub proof fn lemma_approval_changed_wf(
    r: Registry,
    caller: AccountId,
    to: AccountId,
    token_id: u64,
    approved: bool,
)
    requires
        r.wf(),
        r.approval_accepted(caller, to, token_id, approved),
        caller != to,
    ensures
        r.approval_changed(caller, to, token_id, approved).wf(),
{
    let s = r.delegated(to, token_id, approved);
    assert forall|a: AccountId| #[trigger] s.balance_of(a) == s.tokens_of(a).len() by {
        assert(s.balance_of(a) == r.balance_of(a));
        assert(s.tokens_of(a) =~= r.tokens_of(a));
    }
    lemma_emit_wf(s, Event::Approval { owner: caller, spender: to, token_id, approved });
}

} // verus!
