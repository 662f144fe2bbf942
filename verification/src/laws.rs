//! What holds of the registry whatever is asked of it.

use crate::account::AccountId;
use crate::call::Call;
use crate::model::{
    lemma_approval_changed_wf, lemma_created_wf, lemma_minted_wf, lemma_transferred_wf, Registry,
};
use vstd::prelude::*;

verus! {

/// No token has two owners: two accounts whose holdings include the same
/// token are one account.
pub proof fn lemma_owner_is_unique(r: Registry, token_id: u64, a: AccountId, b: AccountId)
    requires
        r.tokens_of(a).contains(token_id),
        r.tokens_of(b).contains(token_id),
    ensures
        a == b,
{
}

/// A call leaves a well-formed registry well formed, however it ends.
pub proof fn lemma_after_wf(r: Registry, call: Call)
    requires
        r.wf(),
    ensures
        r.after(call).wf(),
{
    if r.outcome(call).is_ok() {
        match call {
            Call::Mint { to, value, .. } => {
                lemma_minted_wf(r, to, value);
            },
            Call::Transfer { caller, to, token_id } => {
                lemma_transferred_wf(r, caller, to, token_id);
            },
            Call::TransferFrom { to, token_id, .. } => {
                lemma_transferred_wf(r, r.id_to_owner[token_id], to, token_id);
            },
            Call::Approval { caller, to, token_id, approved } => {
                lemma_approval_changed_wf(r, caller, to, token_id, approved);
            },
        }
    }
}

/// A registry is well formed when it is deployed.
pub proof fn lemma_deployed_wf(owner: AccountId, init_value: u64)
    ensures
        Registry::deployed(owner, init_value).wf(),
{
    lemma_created_wf(owner);
    if init_value > 0 {
        lemma_minted_wf(Registry::created(owner), owner, init_value);
    }
}

/// Any sequence of calls leaves a well-formed registry well formed.
pub proof fn lemma_after_all_wf(r: Registry, calls: Seq<Call>)
    requires
        r.wf(),
    ensures
        r.after_all(calls).wf(),
    decreases calls.len(),
{
    if calls.len() > 0 {
        lemma_after_wf(r, calls[0]);
        lemma_after_all_wf(r.after(calls[0]), calls.drop_first());
    }
}

/// Balances agree with ownership at all times: after a registry is deployed
/// and any sequence of calls is made of it, the recorded balance of every
/// account is the number of tokens that the ownership record gives it.
pub proof fn lemma_balance_is_number_of_tokens(
    owner: AccountId,
    init_value: u64,
    calls: Seq<Call>,
    account: AccountId,
)
    ensures
        ({
            let r = Registry::deployed(owner, init_value).after_all(calls);
            r.balance_of(account) == r.tokens_of(account).len()
        }),
{
    lemma_deployed_wf(owner, init_value);
    lemma_after_all_wf(Registry::deployed(owner, init_value), calls);
}

/// Ownership comes before delegation: the owner of a token may always have
/// it transferred, whatever delegate the approvals name for this or any other
/// token, and the outcome is that of a plain transfer by the owner.
pub proof fn lemma_owner_needs_no_approval(
    r: Registry,
    approvals: Map<u64, AccountId>,
    caller: AccountId,
    to: AccountId,
    token_id: u64,
)
    requires
        r.owns(caller, token_id),
    ensures
        ({
            let s = Registry { approvals, ..r };
            &&& s.may_transfer(caller, token_id)
            &&& s.transferred(s.id_to_owner[token_id], to, token_id) == s.transferred(
                caller,
                to,
                token_id,
            )
            &&& s.after(Call::TransferFrom { caller, to, token_id }) == s.after(
                Call::Transfer { caller, to, token_id },
            )
        }),
{
}

/// A token has one delegate at most, the one approved last. Once the owner
/// has approved `first` and then `second`, both approvals having succeeded,
/// `second` is the delegate, nobody but the owner and `second` may transfer
/// the token, and withdrawing the approval of `first` fails and changes
/// nothing.
pub proof fn lemma_approval_overwrites(
    r: Registry,
    owner: AccountId,
    first: AccountId,
    second: AccountId,
    token_id: u64,
)
    requires
        r.owns(owner, token_id),
        first != second,
    ensures
        ({
            let s1 = r.approval_changed(owner, first, token_id, true);
            let s2 = s1.approval_changed(owner, second, token_id, true);
            let withdraw_first = Call::Approval {
                caller: owner,
                to: first,
                token_id,
                approved: false,
            };
            &&& r.approval_accepted(owner, first, token_id, true)
            &&& s1.approval_accepted(owner, second, token_id, true)
            &&& s2.approved_for(token_id) == Some(second)
            &&& forall|d: AccountId| s2.may_transfer(d, token_id) <==> d == owner || d == second
            &&& !s2.approval_accepted(owner, first, token_id, false)
            &&& s2.after(withdraw_first) == s2
        }),
{
}

/// A call that is done reports one event, its own, after those reported
/// before; a call that is not done reports none and changes nothing.
pub proof fn lemma_one_event_for_each_call_done(r: Registry, call: Call)
    ensures
        r.outcome(call).is_ok() ==> r.after(call).events == r.events.push(r.event_of(call)),
        r.outcome(call).is_err() ==> r.after(call) == r,
{
}

/// The calls that cannot be made are those whose event would be invalid: of
/// a well-formed registry, a call that would be granted can be made exactly
/// when its event is valid.
pub proof fn lemma_admitted_is_valid_event(r: Registry, call: Call)
    requires
        r.wf(),
        r.accepts(call),
    ensures
        r.admits(call) <==> r.event_of(call).valid(),
{
}

/// Nothing is taken back: no sequence of calls lowers the count of minted
/// tokens or makes a token cease to exist, and none changes who created the
/// registry.
pub proof fn lemma_tokens_persist(r: Registry, calls: Seq<Call>, token_id: u64)
    requires
        r.wf(),
    ensures
        r.after_all(calls).owner == r.owner,
        r.after_all(calls).total_minted >= r.total_minted,
        r.owner_of(token_id).is_some() ==> r.after_all(calls).owner_of(token_id).is_some(),
    decreases calls.len(),
{
    if calls.len() > 0 {
        lemma_after_wf(r, calls[0]);
        lemma_after_all_wf(r, calls);
        lemma_tokens_persist(r.after(calls[0]), calls.drop_first(), token_id);
    }
}

/// A call changes only what it names. A mint leaves every existing token
/// with its owner and its delegate, and every balance but the recipient's as
/// it was. A transfer leaves the count of minted tokens, every other token
/// and every balance but those of the two parties as they were. A change of
/// approval leaves owners, balances, the count of minted tokens and the
/// delegates of all other tokens as they were.
pub proof fn lemma_call_changes_only_what_it_names(
    r: Registry,
    call: Call,
    token_id: u64,
    account: AccountId,
)
    requires
        r.wf(),
    ensures
        ({
            let s = r.after(call);
            match call {
                Call::Mint { to, .. } => {
                    &&& s.approvals == r.approvals
                    &&& r.owner_of(token_id).is_some() ==> s.owner_of(token_id) == r.owner_of(
                        token_id,
                    )
                    &&& account != to ==> s.balance_of(account) == r.balance_of(account)
                },
                Call::Transfer { caller, to, token_id: moved } => {
                    &&& s.total_minted == r.total_minted
                    &&& token_id != moved ==> s.owner_of(token_id) == r.owner_of(token_id)
                    &&& token_id != moved ==> s.approved_for(token_id) == r.approved_for(
                        token_id,
                    )
                    &&& account != caller && account != to ==> s.balance_of(account)
                        == r.balance_of(account)
                },
                Call::TransferFrom { to, token_id: moved, .. } => {
                    &&& s.total_minted == r.total_minted
                    &&& token_id != moved ==> s.owner_of(token_id) == r.owner_of(token_id)
                    &&& token_id != moved ==> s.approved_for(token_id) == r.approved_for(
                        token_id,
                    )
                    &&& Some(account) != r.owner_of(moved) && account != to ==> s.balance_of(
                        account,
                    ) == r.balance_of(account)
                },
                Call::Approval { token_id: named, .. } => {
                    &&& s.total_minted == r.total_minted
                    &&& s.id_to_owner == r.id_to_owner
                    &&& s.owner_to_token_count == r.owner_to_token_count
                    &&& token_id != named ==> s.approved_for(token_id) == r.approved_for(
                        token_id,
                    )
                },
            }
        }),
{
}

/// Once a token has changed hands, its new owner alone may transfer it: the
/// delegate of the owner before has no right left.
pub proof fn lemma_transfer_withdraws_approval(
    r: Registry,
    from: AccountId,
    to: AccountId,
    token_id: u64,
    other: AccountId,
)
    requires
        r.owns(from, token_id),
    ensures
        r.transferred(from, to, token_id).owner_of(token_id) == Some(to),
        r.transferred(from, to, token_id).approved_for(token_id).is_none(),
        r.transferred(from, to, token_id).may_transfer(other, token_id) <==> other == to,
{
}

} // verus!
