//! The registry itself: the tables it keeps and the operations on them.

use crate::account::{AccountId, Balance};
use crate::call::{Call, Error};
use crate::event::Event;
use crate::model::{
    lemma_approval_changed_wf, lemma_created_wf, lemma_drained_wf, lemma_minted_wf,
    lemma_transferred_wf, with_tokens, Registry,
};
use std::collections::BTreeMap;
use vstd::prelude::*;

verus! {

/// The balances that a table filed under account keys records.
spec fn balances_of(counts: Map<(u128, u128), Balance>) -> Map<AccountId, Balance> {
    Map::new(
        |a: AccountId| counts.contains_key(a.key()),
        |a: AccountId| counts[a.key()],
    )
}

/// Recording a count under an account's key records it for that account and
/// for no other.
proof fn lemma_balances_of_insert(
    counts: Map<(u128, u128), Balance>,
    account: AccountId,
    count: Balance,
)
    ensures
        balances_of(counts.insert(account.key(), count)) == balances_of(counts).insert(
            account,
            count,
        ),
{
    assert forall|a: AccountId| a.key() == account.key() implies a == account by {}
    assert(balances_of(counts.insert(account.key(), count)) =~= balances_of(counts).insert(
        account,
        count,
    ));
}

/// A registry of non-fungible tokens.
///
/// Tokens are numbered from 1 in the order of their minting; a mint of `n`
/// tokens creates exactly the next `n` numbers and credits them to the
/// account that receives them. Every account may mint. A token has one owner
/// and at most one approved delegate, and whenever it changes hands its
/// approval is withdrawn: a delegate of the old owner has no right over the
/// token of the new one. Every successful change reports one event, every
/// failed one changes nothing and reports nothing.
///
/// Ownership and approvals are filed under the token's number, balances under
/// the account's key. Events wait in `events` until they are collected with
/// [`NFToken::take_events`].
pub struct NFToken {
    /// The account that created the registry.
    owner: AccountId,
    /// The number of tokens ever minted.
    total_minted: Balance,
    /// The owner of each token.
    id_to_owner: BTreeMap<u64, AccountId>,
    /// The number of tokens of each account that ever held one, filed under
    /// the account's key: a pair of integers, whose order the table knows.
    owner_to_token_count: BTreeMap<(u128, u128), Balance>,
    /// The approved delegate of each token that has one.
    approvals: BTreeMap<u64, AccountId>,
    /// The events reported since they were last collected, oldest first.
    events: Vec<Event>,
}

impl View for NFToken {
    type V = Registry;

    closed spec fn view(&self) -> Registry {
        Registry {
            owner: self.owner,
            total_minted: self.total_minted,
            id_to_owner: self.id_to_owner@,
            owner_to_token_count: balances_of(self.owner_to_token_count@),
            approvals: self.approvals@,
            events: self.events@,
        }
    }
}

impl NFToken {
    /// Whether the registry keeps its invariant (see [`Registry::wf`]).
    pub open spec fn wf(&self) -> bool {
        self@.wf()
    }

    /// Creates the registry for `caller`, and mints the first `init_value`
    /// tokens to `caller` where `init_value` is not 0.
    pub fn deploy(caller: AccountId, init_value: u64) -> (token: NFToken)
        ensures
            token.wf(),
            token@ == Registry::deployed(caller, init_value),
    {
        let mut token = NFToken {
            owner: caller,
            total_minted: 0,
            id_to_owner: BTreeMap::new(),
            owner_to_token_count: BTreeMap::new(),
            approvals: BTreeMap::new(),
            events: Vec::new(),
        };
        proof {
            lemma_created_wf(caller);
            assert(token@.owner_to_token_count =~= Map::empty());
        }
        if init_value > 0 {
            token.mint_impl(caller, init_value);
        }
        token
    }

    /// Transfers `token_id` from `caller` to `to`.
    ///
    /// Succeeds exactly when `caller` owns the token; otherwise nothing
    /// changes and nothing is reported. A token cannot be transferred to the
    /// account that holds it: the transfer event would name one account
    /// twice.
    pub fn transfer(&mut self, caller: AccountId, to: AccountId, token_id: u64) -> (ok: bool)
        requires
            old(self).wf(),
            old(self)@.owns(caller, token_id) ==> caller != to,
        ensures
            final(self).wf(),
            ok == old(self)@.owns(caller, token_id),
            ok ==> final(self)@ == old(self)@.transferred(caller, to, token_id),
            !ok ==> final(self)@ == old(self)@,
    {
        self.transfer_impl(caller, to, token_id)
    }

    /// Transfers `token_id` from its owner to `to`, on the word of `caller`.
    ///
    /// Where `caller` owns the token, this is [`NFToken::transfer`], whatever
    /// the approvals say. Otherwise it succeeds exactly when `caller` is the
    /// approved delegate of the token; the token then leaves the balance of
    /// its owner, whom the event names as the sender. In every other case
    /// nothing changes and nothing is reported. The token cannot go to the
    /// account that holds it.
    pub fn transfer_from(&mut self, caller: AccountId, to: AccountId, token_id: u64) -> (ok: bool)
        requires
            old(self).wf(),
            old(self)@.may_transfer(caller, token_id) ==> !old(self)@.owns(to, token_id),
        ensures
            final(self).wf(),
            ok == old(self)@.may_transfer(caller, token_id),
            ok ==> final(self)@ == old(self)@.transferred(
                old(self)@.id_to_owner[token_id],
                to,
                token_id,
            ),
            !ok ==> final(self)@ == old(self)@,
    {
        if self.is_token_owner(&caller, token_id) {
            self.transfer_impl(caller, to, token_id)
        } else {
            match self.approved_for(token_id) {
                None => false,
                Some(delegate) => {
                    if delegate == caller {
                        match self.owner_of(token_id) {
                            Some(owner) => self.transfer_impl(owner, to, token_id),
                            None => false,
                        }
                    } else {
                        false
                    }
                },
            }
        }
    }

    /// Mints `value` new tokens to `to`. Every caller may mint.
    ///
    /// The new tokens take the numbers after the last one minted. Fails, with
    /// nothing changed and nothing reported, where `value` is 0 or the
    /// counter of minted tokens cannot take `value` more.
    #[allow(unused_variables)]
    pub fn mint(&mut self, caller: AccountId, to: AccountId, value: u64) -> (ok: bool)
        requires
            old(self).wf(),
        ensures
            final(self).wf(),
            ok == old(self)@.mint_accepted(value),
            ok ==> final(self)@ == old(self)@.minted(to, value),
            !ok ==> final(self)@ == old(self)@,
    {
        self.mint_impl(to, value)
    }

    /// Approves `to` to transfer `token_id` for its owner `caller`
    /// (`approved`), or withdraws that approval (`!approved`).
    ///
    /// Fails, with nothing changed and nothing reported, unless `caller` owns
    /// the token. An approval replaces whatever delegate the token had. A
    /// withdrawal succeeds only for the delegate on record: where the token
    /// has none, or another, it fails. An owner cannot be its own delegate.
    pub fn approval(
        &mut self,
        caller: AccountId,
        to: AccountId,
        token_id: u64,
        approved: bool,
    ) -> (ok: bool)
        requires
            old(self).wf(),
            old(self)@.approval_accepted(caller, to, token_id, approved) ==> caller != to,
        ensures
            final(self).wf(),
            ok == old(self)@.approval_accepted(caller, to, token_id, approved),
            ok ==> final(self)@ == old(self)@.approval_changed(caller, to, token_id, approved),
            !ok ==> final(self)@ == old(self)@,
    {
        if !self.is_token_owner(&caller, token_id) {
            return false;
        }
        match self.approved_for(token_id) {
            None => {
                if approved {
                    self.approvals.insert(token_id, to);
                } else {
                    return false;
                }
            },
            Some(existing) => {
                if approved {
                    self.approvals.insert(token_id, to);
                } else if existing == to {
                    self.approvals.remove(&token_id);
                } else {
                    return false;
                }
            },
        }
        self.emit_approval(caller, to, token_id, approved);
        proof {
            lemma_approval_changed_wf(old(self)@, caller, to, token_id, approved);
        }
        true
    }

    /// Returns the number of tokens ever minted.
    pub fn total_minted(&self) -> (total: Balance)
        ensures
            total == self@.total_minted,
    {
        self.total_minted
    }

    /// Returns the account that created the registry.
    pub fn owner(&self) -> (owner: AccountId)
        ensures
            owner == self@.owner,
    {
        self.owner
    }

    /// Returns the balance of `owner`: 0 for an account that never held a
    /// token.
    pub fn balance_of(&self, owner: AccountId) -> (balance: Balance)
        ensures
            balance == self@.balance_of(owner),
    {
        match self.owner_to_token_count.get(&(owner.hi, owner.lo)) {
            Some(count) => *count,
            None => 0,
        }
    }

    /// Returns the owner of `token_id`, or `None` where no such token was
    /// minted.
    pub fn owner_of(&self, token_id: u64) -> (owner: Option<AccountId>)
        ensures
            owner == self@.owner_of(token_id),
    {
        match self.id_to_owner.get(&token_id) {
            Some(owner) => Some(*owner),
            None => None,
        }
    }

    /// Returns the delegate approved for `token_id`, if there is one.
    pub fn approved_for(&self, token_id: u64) -> (delegate: Option<AccountId>)
        ensures
            delegate == self@.approved_for(token_id),
    {
        match self.approvals.get(&token_id) {
            Some(delegate) => Some(*delegate),
            None => None,
        }
    }

    /// Tells whether `of` is the owner of `token_id`.
    pub fn is_token_owner(&self, of: &AccountId, token_id: u64) -> (is_owner: bool)
        ensures
            is_owner == self@.owns(*of, token_id),
    {
        match self.id_to_owner.get(&token_id) {
            None => false,
            Some(owner) => *owner == *of,
        }
    }

    /// Tells whether `caller` may move `token_id`, as its owner or as its
    /// approved delegate.
    pub fn may_transfer(&self, caller: &AccountId, token_id: u64) -> (may: bool)
        ensures
            may == self@.may_transfer(*caller, token_id),
    {
        match self.owner_of(token_id) {
            None => false,
            Some(owner) => {
                if owner == *caller {
                    true
                } else {
                    match self.approved_for(token_id) {
                        None => false,
                        Some(delegate) => delegate == *caller,
                    }
                }
            },
        }
    }

    /// Makes `call`, whatever it asks.
    ///
    /// Where the call is done, the registry changes as the operation that
    /// the call names says, and one event is reported. Where it is not, the
    /// registry stays as it was, nothing is reported, and the error tells
    /// whether the call was rejected or could not be made at all.
    pub fn dispatch(&mut self, call: Call) -> (result: Result<(), Error>)
        requires
            old(self).wf(),
        ensures
            final(self).wf(),
            result == old(self)@.outcome(call),
            final(self)@ == old(self)@.after(call),
    {
        if !self.admits(&call) {
            return Err(Error::InternalInvariantViolation);
        }
        let done = match call {
            Call::Mint { caller, to, value } => self.mint(caller, to, value),
            Call::Transfer { caller, to, token_id } => self.transfer(caller, to, token_id),
            Call::TransferFrom { caller, to, token_id } => self.transfer_from(caller, to, token_id),
            Call::Approval { caller, to, token_id, approved } => {
                self.approval(caller, to, token_id, approved)
            },
        };
        if done {
            Ok(())
        } else {
            Err(Error::Rejected)
        }
    }

    /// Tells whether `call` can be made of the registry as it stands: whether
    /// it meets what the operation it names requires of its arguments.
    pub fn admits(&self, call: &Call) -> (admitted: bool)
        ensures
            admitted == self@.admits(*call),
    {
        match *call {
            Call::Mint { .. } => true,
            Call::Transfer { caller, to, token_id } => {
                !self.is_token_owner(&caller, token_id) || caller != to
            },
            Call::TransferFrom { caller, to, token_id } => {
                !self.may_transfer(&caller, token_id) || !self.is_token_owner(&to, token_id)
            },
            Call::Approval { caller, to, token_id, approved } => {
                let withdraws_other = match self.approved_for(token_id) {
                    None => true,
                    Some(delegate) => delegate != to,
                };
                !self.is_token_owner(&caller, token_id) || (!approved && withdraws_other)
                    || caller != to
            },
        }
    }

    /// Hands out the events reported since the last call, oldest first, and
    /// leaves none behind.
    pub fn take_events(&mut self) -> (events: Vec<Event>)
        ensures
            events@ == old(self)@.events,
            final(self)@ == old(self)@.drained(),
            old(self).wf() ==> final(self).wf(),
    {
        proof {
            if self.wf() {
                lemma_drained_wf(self@);
            }
        }
        let mut events: Vec<Event> = Vec::new();
        std::mem::swap(&mut self.events, &mut events);
        events
    }

    /// Moves `token_id` from `from` to `to`, provided `from` owns it, and
    /// withdraws the approval that the token had.
    fn transfer_impl(&mut self, from: AccountId, to: AccountId, token_id: u64) -> (ok: bool)
        requires
            old(self).wf(),
            old(self)@.owns(from, token_id) ==> from != to,
        ensures
            final(self).wf(),
            ok == old(self)@.owns(from, token_id),
            ok ==> final(self)@ == old(self)@.transferred(from, to, token_id),
            !ok ==> final(self)@ == old(self)@,
    {
        if !self.is_token_owner(&from, token_id) {
            return false;
        }
        proof {
            lemma_transferred_wf(self@, from, to, token_id);
        }
        let from_owner_count = self.balance_of(from);
        let to_owner_count = self.balance_of(to);

        self.id_to_owner.insert(token_id, to);
        self.approvals.remove(&token_id);
        self.owner_to_token_count.insert((from.hi, from.lo), from_owner_count - 1);
        self.owner_to_token_count.insert((to.hi, to.lo), to_owner_count + 1);
        proof {
            let counts = old(self).owner_to_token_count@;
            lemma_balances_of_insert(counts, from, (from_owner_count - 1) as u64);
            lemma_balances_of_insert(
                counts.insert(from.key(), (from_owner_count - 1) as u64),
                to,
                (to_owner_count + 1) as u64,
            );
            assert(self@ == old(self)@.moved(from, to, token_id));
        }
        self.emit_transfer(Some(from), Some(to), token_id);
        true
    }

    /// Mints `value` new tokens to `receiver`, numbered from the one after
    /// the last minted, and credits them to its balance.
    fn mint_impl(&mut self, receiver: AccountId, value: u64) -> (ok: bool)
        requires
            old(self).wf(),
        ensures
            final(self).wf(),
            ok == old(self)@.mint_accepted(value),
            ok ==> final(self)@ == old(self)@.minted(receiver, value),
            !ok ==> final(self)@ == old(self)@,
    {
        if value == 0 || value > u64::MAX - self.total_minted {
            return false;
        }
        proof {
            lemma_minted_wf(self@, receiver, value);
        }
        let stop_id = self.total_minted + value;
        let mut last_id = self.total_minted;
        while last_id < stop_id
            invariant
                old(self).total_minted <= last_id <= stop_id,
                self.id_to_owner@ == with_tokens(
                    old(self).id_to_owner@,
                    old(self).total_minted as int,
                    last_id as int,
                    receiver,
                ),
                self.owner == old(self).owner,
                self.total_minted == old(self).total_minted,
                self.owner_to_token_count == old(self).owner_to_token_count,
                self.approvals == old(self).approvals,
                self.events == old(self).events,
            decreases stop_id - last_id,
        {
            last_id = last_id + 1;
            self.id_to_owner.insert(last_id, receiver);
        }

        let receiver_count = self.balance_of(receiver);
        self.owner_to_token_count.insert((receiver.hi, receiver.lo), receiver_count + value);
        self.total_minted = stop_id;
        proof {
            lemma_balances_of_insert(
                old(self).owner_to_token_count@,
                receiver,
                (receiver_count + value) as u64,
            );
            assert(self@ == old(self)@.issued(receiver, value));
        }
        self.emit_mint(receiver, stop_id);
        true
    }

    /// Puts an event in line for collection.
    fn deposit_event(&mut self, event: Event)
        ensures
            final(self)@ == old(self)@.emit(event),
    {
        self.events.push(event);
    }

    /// Reports a transfer.
    fn emit_transfer(&mut self, from: Option<AccountId>, to: Option<AccountId>, token_id: u64)
        requires
            from.is_some() || to.is_some(),
            from != to,
            token_id != 0,
        ensures
            final(self)@ == old(self)@.emit(Event::Transfer { from, to, token_id }),
    {
        self.deposit_event(Event::Transfer { from, to, token_id });
    }

    /// Reports a mint; `value` is the number of tokens ever minted.
    fn emit_mint(&mut self, owner: AccountId, value: Balance)
        requires
            value > 0,
        ensures
            final(self)@ == old(self)@.emit(Event::Mint { owner, value }),
    {
        self.deposit_event(Event::Mint { owner, value });
    }

    /// Reports a change of approval.
    fn emit_approval(&mut self, owner: AccountId, spender: AccountId, token_id: u64, approved: bool)
        requires
            owner != spender,
            token_id > 0,
        ensures
            final(self)@ == old(self)@.emit(Event::Approval { owner, spender, token_id, approved }),
    {
        self.deposit_event(Event::Approval { owner, spender, token_id, approved });
    }
}

} // verus!
