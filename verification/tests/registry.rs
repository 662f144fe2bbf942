use nftoken::{AccountId, Call, Error, Event, NFToken};

fn account(byte: u8) -> AccountId {
    AccountId::from([byte; 32])
}

/// The number of tokens that the ownership record gives to `account`.
fn tokens_held(registry: &NFToken, account: &AccountId) -> u64 {
    let mut held = 0;
    let mut token_id = 1;
    while token_id <= registry.total_minted() {
        if registry.is_token_owner(account, token_id) {
            held += 1;
        }
        token_id += 1;
    }
    held
}

#[test]
fn it_works() {
    let alice = AccountId::try_from([0x0; 32]).unwrap();
    let bob = AccountId::try_from([0x1; 32]).unwrap();
    let charlie = AccountId::try_from([0x2; 32]).unwrap();
    let dave = AccountId::try_from([0x3; 32]).unwrap();

    // deploying and minting initial tokens
    let mut _nftoken = NFToken::deploy(alice, 100);

    let total_minted = _nftoken.total_minted();
    assert_eq!(total_minted, 100);

    // transferring token_id from alice to bob
    _nftoken.transfer(alice, bob, 1);

    let alice_balance = _nftoken.balance_of(alice);
    let mut bob_balance = _nftoken.balance_of(bob);

    assert_eq!(alice_balance, 99);
    assert_eq!(bob_balance, 1);

    // approve charlie to send token_id 2 from alice's account
    _nftoken.approval(alice, charlie, 2, true);

    // overwrite charlie's approval with dave's approval
    _nftoken.approval(alice, dave, 2, true);

    // remove dave from approvals
    _nftoken.approval(alice, dave, 2, false);

    // transfer_from function: caller is token owner
    _nftoken.approval(alice, charlie, 3, true);
    _nftoken.transfer_from(alice, bob, 3);

    bob_balance = _nftoken.balance_of(bob);
    assert_eq!(bob_balance, 2);
}

#[test]
fn scenario_from_creation_to_revocation() {
    let (a, b, c, d, e) = (account(1), account(2), account(3), account(4), account(5));

    let mut registry = NFToken::deploy(a, 100);
    assert_eq!(registry.total_minted(), 100);

    assert!(registry.transfer(a, b, 1));
    assert_eq!(registry.balance_of(a), 99);
    assert_eq!(registry.balance_of(b), 1);
    assert_eq!(registry.owner_of(1), Some(b));

    assert!(registry.approval(a, c, 2, true));
    assert!(registry.may_transfer(&c, 2));

    assert!(registry.approval(a, d, 2, true));
    assert!(!registry.may_transfer(&c, 2));
    assert!(registry.may_transfer(&d, 2));
    assert!(!registry.transfer_from(c, e, 2));
    assert_eq!(registry.owner_of(2), Some(a));

    assert!(registry.approval(a, d, 2, false));
    assert_eq!(registry.approved_for(2), None);
    assert!(!registry.transfer_from(d, e, 2));
    assert_eq!(registry.owner_of(2), Some(a));
    assert_eq!(registry.balance_of(a), 99);
    assert_eq!(registry.balance_of(e), 0);
}

#[test]
fn scenario_approved_delegate_transfers_to_any_account() {
    let (a, b, c, d, e) = (account(1), account(2), account(3), account(4), account(5));
    for receiver in [b, c, d, e] {
        let mut registry = NFToken::deploy(a, 100);
        assert!(registry.transfer(a, b, 1));
        assert!(registry.approval(a, c, 2, true));

        assert!(registry.transfer_from(c, receiver, 2));
        assert_eq!(registry.owner_of(2), Some(receiver));
        assert_eq!(registry.balance_of(a), 98);
    }

    let mut registry = NFToken::deploy(a, 100);
    assert!(registry.approval(a, c, 2, true));
    assert!(registry.approval(a, d, 2, true));
    assert!(registry.transfer_from(d, e, 2));
    assert_eq!(registry.owner_of(2), Some(e));
    assert_eq!(registry.balance_of(a), 99);
    assert_eq!(registry.balance_of(e), 1);
}

#[test]
fn deploy_without_initial_tokens_is_empty() {
    let alice = account(1);
    let mut registry = NFToken::deploy(alice, 0);
    assert_eq!(registry.total_minted(), 0);
    assert_eq!(registry.owner(), alice);
    assert_eq!(registry.balance_of(alice), 0);
    assert_eq!(registry.owner_of(1), None);
    assert_eq!(registry.take_events(), vec![]);
}

#[test]
fn deploy_mints_to_the_creator_and_reports_it() {
    let alice = account(1);
    let mut registry = NFToken::deploy(alice, 100);
    assert_eq!(registry.owner(), alice);
    assert_eq!(registry.balance_of(alice), 100);
    assert_eq!(registry.take_events(), vec![Event::Mint { owner: alice, value: 100 }]);
}

#[test]
fn deploy_numbers_tokens_from_one() {
    let alice = account(1);
    let registry = NFToken::deploy(alice, 100);
    assert_eq!(registry.owner_of(0), None);
    assert_eq!(registry.owner_of(1), Some(alice));
    assert_eq!(registry.owner_of(100), Some(alice));
    assert_eq!(registry.owner_of(101), None);
    assert_eq!(tokens_held(&registry, &alice), 100);
}

#[test]
fn mint_continues_the_numbering_and_credits_the_recipient() {
    let (alice, bob, charlie) = (account(1), account(2), account(3));
    let mut registry = NFToken::deploy(alice, 3);
    registry.take_events();

    assert!(registry.mint(bob, charlie, 2));
    assert_eq!(registry.total_minted(), 5);
    assert_eq!(registry.owner_of(3), Some(alice));
    assert_eq!(registry.owner_of(4), Some(charlie));
    assert_eq!(registry.owner_of(5), Some(charlie));
    assert_eq!(registry.owner_of(6), None);
    assert_eq!(registry.balance_of(charlie), 2);
    assert_eq!(registry.balance_of(alice), 3);
    assert_eq!(registry.balance_of(bob), 0);
    assert_eq!(registry.take_events(), vec![Event::Mint { owner: charlie, value: 5 }]);
}

#[test]
fn mint_of_one_token_mints_exactly_one() {
    let alice = account(1);
    let mut registry = NFToken::deploy(alice, 0);
    assert!(registry.mint(alice, alice, 1));
    assert_eq!(registry.total_minted(), 1);
    assert_eq!(registry.owner_of(1), Some(alice));
    assert_eq!(registry.owner_of(2), None);
    assert_eq!(registry.balance_of(alice), 1);
}

#[test]
fn mint_of_no_token_is_rejected() {
    let (alice, bob) = (account(1), account(2));
    let mut registry = NFToken::deploy(alice, 3);
    registry.take_events();

    assert!(!registry.mint(alice, bob, 0));
    assert_eq!(registry.total_minted(), 3);
    assert_eq!(registry.balance_of(bob), 0);
    assert_eq!(registry.take_events(), vec![]);
}

#[test]
fn mint_beyond_the_counter_is_rejected() {
    let (alice, bob) = (account(1), account(2));
    let mut registry = NFToken::deploy(alice, 1);
    registry.take_events();

    assert!(!registry.mint(alice, bob, u64::MAX));
    assert_eq!(registry.total_minted(), 1);
    assert_eq!(registry.owner_of(2), None);
    assert_eq!(registry.balance_of(bob), 0);
    assert_eq!(registry.take_events(), vec![]);
}

#[test]
fn transfer_moves_the_token_and_one_unit_of_balance() {
    let (alice, bob) = (account(1), account(2));
    let mut registry = NFToken::deploy(alice, 10);
    registry.take_events();

    assert!(registry.transfer(alice, bob, 7));
    assert_eq!(registry.owner_of(7), Some(bob));
    assert_eq!(registry.balance_of(alice), 9);
    assert_eq!(registry.balance_of(bob), 1);
    assert_eq!(registry.total_minted(), 10);
    assert_eq!(
        registry.take_events(),
        vec![Event::Transfer { from: Some(alice), to: Some(bob), token_id: 7 }]
    );

    assert!(registry.transfer(bob, alice, 7));
    assert_eq!(registry.owner_of(7), Some(alice));
    assert_eq!(registry.balance_of(alice), 10);
    assert_eq!(registry.balance_of(bob), 0);
}

#[test]
fn transfer_by_another_account_fails_and_changes_nothing() {
    let (alice, bob, charlie) = (account(1), account(2), account(3));
    let mut registry = NFToken::deploy(alice, 10);
    registry.take_events();

    assert!(!registry.transfer(bob, charlie, 1));
    assert!(!registry.transfer(bob, alice, 1));
    assert_eq!(registry.owner_of(1), Some(alice));
    assert_eq!(registry.balance_of(alice), 10);
    assert_eq!(registry.balance_of(bob), 0);
    assert_eq!(registry.balance_of(charlie), 0);
    assert_eq!(registry.take_events(), vec![]);
}

#[test]
fn transfer_of_a_token_that_does_not_exist_fails() {
    let (alice, bob) = (account(1), account(2));
    let mut registry = NFToken::deploy(alice, 10);
    registry.take_events();

    assert!(!registry.transfer(alice, bob, 0));
    assert!(!registry.transfer(alice, bob, 11));
    assert!(!registry.transfer_from(alice, bob, 0));
    assert!(!registry.transfer_from(alice, bob, 11));
    assert_eq!(registry.balance_of(alice), 10);
    assert_eq!(registry.balance_of(bob), 0);
    assert_eq!(registry.take_events(), vec![]);
}

#[test]
fn delegate_transfers_from_the_owner() {
    let (alice, bob, charlie) = (account(1), account(2), account(3));
    let mut registry = NFToken::deploy(alice, 10);
    assert!(registry.approval(alice, charlie, 2, true));
    registry.take_events();

    assert!(registry.transfer_from(charlie, bob, 2));
    assert_eq!(registry.owner_of(2), Some(bob));
    assert_eq!(registry.balance_of(alice), 9);
    assert_eq!(registry.balance_of(bob), 1);
    assert_eq!(registry.balance_of(charlie), 0);
    assert_eq!(
        registry.take_events(),
        vec![Event::Transfer { from: Some(alice), to: Some(bob), token_id: 2 }]
    );
}

#[test]
fn transfer_withdraws_the_approval() {
    let (alice, bob, charlie, dave) = (account(1), account(2), account(3), account(4));
    let mut registry = NFToken::deploy(alice, 10);

    assert!(registry.approval(alice, charlie, 2, true));
    assert!(registry.transfer(alice, bob, 2));
    assert_eq!(registry.approved_for(2), None);
    assert!(!registry.transfer_from(charlie, dave, 2));
    assert_eq!(registry.owner_of(2), Some(bob));

    assert!(registry.approval(bob, charlie, 2, true));
    assert!(registry.transfer_from(charlie, dave, 2));
    assert_eq!(registry.approved_for(2), None);
    assert!(!registry.transfer_from(charlie, alice, 2));
    assert_eq!(registry.owner_of(2), Some(dave));
}

#[test]
fn approval_of_one_token_is_none_of_another() {
    let (alice, bob, charlie) = (account(1), account(2), account(3));
    let mut registry = NFToken::deploy(alice, 10);
    assert!(registry.approval(alice, charlie, 2, true));
    assert!(!registry.transfer_from(charlie, bob, 3));
    assert_eq!(registry.owner_of(3), Some(alice));
    assert_eq!(registry.approved_for(3), None);
    assert_eq!(registry.approved_for(2), Some(charlie));
}

#[test]
fn owner_transfers_whatever_the_approvals_say() {
    let (alice, bob, dave) = (account(1), account(2), account(4));
    let mut registry = NFToken::deploy(alice, 10);
    assert!(registry.approval(alice, dave, 3, true));
    registry.take_events();

    assert!(registry.transfer_from(alice, bob, 3));
    assert_eq!(registry.owner_of(3), Some(bob));
    assert_eq!(registry.balance_of(alice), 9);
    assert_eq!(registry.balance_of(bob), 1);
    assert_eq!(
        registry.take_events(),
        vec![Event::Transfer { from: Some(alice), to: Some(bob), token_id: 3 }]
    );
}

#[test]
fn later_approval_replaces_the_earlier() {
    let (alice, bob, charlie, dave) = (account(1), account(2), account(3), account(4));
    let mut registry = NFToken::deploy(alice, 10);

    assert!(registry.approval(alice, charlie, 2, true));
    assert_eq!(registry.approved_for(2), Some(charlie));
    assert!(registry.approval(alice, dave, 2, true));
    assert_eq!(registry.approved_for(2), Some(dave));
    registry.take_events();

    assert!(!registry.approval(alice, charlie, 2, false));
    assert_eq!(registry.approved_for(2), Some(dave));
    assert_eq!(registry.take_events(), vec![]);

    assert!(!registry.transfer_from(charlie, bob, 2));
    assert!(registry.transfer_from(dave, bob, 2));
    assert_eq!(registry.owner_of(2), Some(bob));
}

#[test]
fn approval_reports_owner_delegate_and_token() {
    let (alice, charlie) = (account(1), account(3));
    let mut registry = NFToken::deploy(alice, 10);
    registry.take_events();

    assert!(registry.approval(alice, charlie, 2, true));
    assert!(registry.approval(alice, charlie, 2, true));
    assert!(registry.approval(alice, charlie, 2, false));
    assert_eq!(
        registry.take_events(),
        vec![
            Event::Approval { owner: alice, spender: charlie, token_id: 2, approved: true },
            Event::Approval { owner: alice, spender: charlie, token_id: 2, approved: true },
            Event::Approval { owner: alice, spender: charlie, token_id: 2, approved: false },
        ]
    );
    assert_eq!(registry.approved_for(2), None);
}

#[test]
fn approval_by_another_account_fails() {
    let (alice, bob, charlie) = (account(1), account(2), account(3));
    let mut registry = NFToken::deploy(alice, 10);
    registry.take_events();

    assert!(!registry.approval(bob, charlie, 2, true));
    assert!(!registry.approval(bob, bob, 2, true));
    assert!(!registry.approval(alice, charlie, 0, true));
    assert!(!registry.approval(alice, charlie, 11, true));
    assert_eq!(registry.approved_for(2), None);
    assert_eq!(registry.approved_for(0), None);
    assert_eq!(registry.approved_for(11), None);
    assert_eq!(registry.take_events(), vec![]);
}

#[test]
fn withdrawal_without_an_approval_fails() {
    let (alice, charlie) = (account(1), account(3));
    let mut registry = NFToken::deploy(alice, 10);
    registry.take_events();

    assert!(!registry.approval(alice, charlie, 2, false));
    assert!(!registry.approval(alice, alice, 2, false));
    assert_eq!(registry.approved_for(2), None);
    assert_eq!(registry.take_events(), vec![]);
}

#[test]
fn balances_match_ownership_after_many_calls() {
    let accounts = [account(1), account(2), account(3), account(4)];
    let (a, b, c, d) = (accounts[0], accounts[1], accounts[2], accounts[3]);
    let mut registry = NFToken::deploy(a, 20);

    assert!(registry.transfer(a, b, 1));
    assert!(registry.transfer(a, b, 2));
    assert!(registry.transfer(b, c, 1));
    assert!(!registry.transfer(b, c, 1));
    assert!(registry.mint(d, c, 5));
    assert!(registry.approval(c, d, 21, true));
    assert!(registry.transfer_from(d, d, 21));
    assert!(registry.approval(a, b, 20, true));
    assert!(registry.transfer_from(a, d, 20));
    assert!(!registry.transfer_from(b, c, 20));
    assert!(registry.mint(a, b, 1));
    assert!(!registry.mint(a, b, 0));

    assert_eq!(registry.total_minted(), 26);
    let mut sum = 0;
    for holder in accounts.iter() {
        assert_eq!(registry.balance_of(*holder), tokens_held(&registry, holder));
        sum += registry.balance_of(*holder);
    }
    assert_eq!(sum, 26);
    assert_eq!(registry.balance_of(a), 17);
    assert_eq!(registry.balance_of(b), 2);
    assert_eq!(registry.balance_of(c), 5);
    assert_eq!(registry.balance_of(d), 2);
}

#[test]
fn every_token_has_one_owner() {
    let accounts = [account(1), account(2), account(3)];
    let (a, b, c) = (accounts[0], accounts[1], accounts[2]);
    let mut registry = NFToken::deploy(a, 6);
    assert!(registry.transfer(a, b, 2));
    assert!(registry.transfer(a, c, 4));
    assert!(registry.transfer(b, c, 2));

    let mut token_id = 1;
    while token_id <= registry.total_minted() {
        let owners = accounts
            .iter()
            .filter(|holder| registry.is_token_owner(holder, token_id))
            .count();
        assert_eq!(owners, 1);
        token_id += 1;
    }
    assert_eq!(registry.owner_of(2), Some(c));
    assert_eq!(registry.owner_of(4), Some(c));
    assert_eq!(registry.owner_of(1), Some(a));
}

#[test]
fn is_token_owner_tells_owner_from_others() {
    let (alice, bob) = (account(1), account(2));
    let registry = NFToken::deploy(alice, 2);
    assert!(registry.is_token_owner(&alice, 1));
    assert!(registry.is_token_owner(&alice, 2));
    assert!(!registry.is_token_owner(&bob, 1));
    assert!(!registry.is_token_owner(&alice, 0));
    assert!(!registry.is_token_owner(&alice, 3));
}

#[test]
fn may_transfer_holds_for_owner_and_delegate_only() {
    let (alice, bob, charlie) = (account(1), account(2), account(3));
    let mut registry = NFToken::deploy(alice, 2);
    assert!(registry.approval(alice, charlie, 1, true));
    assert!(registry.may_transfer(&alice, 1));
    assert!(registry.may_transfer(&charlie, 1));
    assert!(!registry.may_transfer(&bob, 1));
    assert!(!registry.may_transfer(&charlie, 2));
    assert!(!registry.may_transfer(&alice, 3));
    assert!(!registry.may_transfer(&alice, 0));
}

#[test]
fn events_are_collected_once_and_in_order() {
    let (alice, bob, charlie) = (account(1), account(2), account(3));
    let mut registry = NFToken::deploy(alice, 2);
    assert!(registry.approval(alice, charlie, 1, true));
    assert!(registry.transfer_from(charlie, bob, 1));
    assert!(!registry.transfer(alice, bob, 1));

    assert_eq!(
        registry.take_events(),
        vec![
            Event::Mint { owner: alice, value: 2 },
            Event::Approval { owner: alice, spender: charlie, token_id: 1, approved: true },
            Event::Transfer { from: Some(alice), to: Some(bob), token_id: 1 },
        ]
    );
    assert_eq!(registry.take_events(), vec![]);
    assert_eq!(registry.total_minted(), 2);
    assert_eq!(registry.owner_of(1), Some(bob));
}

#[test]
fn calls_that_cannot_be_made_are_told_apart() {
    let (alice, bob, charlie) = (account(1), account(2), account(3));
    let mut registry = NFToken::deploy(alice, 2);
    assert!(registry.approval(alice, charlie, 1, true));

    assert!(registry.admits(&Call::Mint { caller: bob, to: bob, value: 0 }));

    assert!(!registry.admits(&Call::Transfer { caller: alice, to: alice, token_id: 1 }));
    assert!(registry.admits(&Call::Transfer { caller: alice, to: bob, token_id: 1 }));
    assert!(registry.admits(&Call::Transfer { caller: bob, to: bob, token_id: 1 }));
    assert!(registry.admits(&Call::Transfer { caller: alice, to: alice, token_id: 3 }));

    assert!(!registry.admits(&Call::TransferFrom { caller: charlie, to: alice, token_id: 1 }));
    assert!(!registry.admits(&Call::TransferFrom { caller: alice, to: alice, token_id: 1 }));
    assert!(registry.admits(&Call::TransferFrom { caller: charlie, to: charlie, token_id: 1 }));
    assert!(registry.admits(&Call::TransferFrom { caller: bob, to: alice, token_id: 1 }));
    assert!(registry.admits(&Call::TransferFrom { caller: charlie, to: alice, token_id: 2 }));

    assert!(!registry.admits(
        &Call::Approval { caller: alice, to: alice, token_id: 1, approved: true }
    ));
    assert!(registry.admits(
        &Call::Approval { caller: alice, to: alice, token_id: 1, approved: false }
    ));
    assert!(registry.admits(
        &Call::Approval { caller: alice, to: bob, token_id: 1, approved: true }
    ));
    assert!(registry.admits(
        &Call::Approval { caller: bob, to: bob, token_id: 1, approved: true }
    ));
}

#[test]
fn dispatch_does_what_the_call_names() {
    let (alice, bob, charlie) = (account(1), account(2), account(3));
    let mut registry = NFToken::deploy(alice, 2);
    registry.take_events();

    assert_eq!(registry.dispatch(Call::Mint { caller: bob, to: bob, value: 3 }), Ok(()));
    assert_eq!(registry.total_minted(), 5);
    assert_eq!(registry.owner_of(5), Some(bob));
    assert_eq!(registry.balance_of(bob), 3);

    assert_eq!(registry.dispatch(Call::Transfer { caller: alice, to: bob, token_id: 1 }), Ok(()));
    assert_eq!(registry.owner_of(1), Some(bob));
    assert_eq!(registry.balance_of(alice), 1);
    assert_eq!(registry.balance_of(bob), 4);

    assert_eq!(
        registry.dispatch(Call::Approval {
            caller: alice,
            to: charlie,
            token_id: 2,
            approved: true
        }),
        Ok(())
    );
    assert_eq!(registry.approved_for(2), Some(charlie));

    assert_eq!(
        registry.dispatch(Call::TransferFrom { caller: charlie, to: bob, token_id: 2 }),
        Ok(())
    );
    assert_eq!(registry.owner_of(2), Some(bob));
    assert_eq!(registry.balance_of(alice), 0);
    assert_eq!(registry.balance_of(bob), 5);

    assert_eq!(
        registry.take_events(),
        vec![
            Event::Mint { owner: bob, value: 5 },
            Event::Transfer { from: Some(alice), to: Some(bob), token_id: 1 },
            Event::Approval { owner: alice, spender: charlie, token_id: 2, approved: true },
            Event::Transfer { from: Some(alice), to: Some(bob), token_id: 2 },
        ]
    );
}

#[test]
fn dispatch_rejects_what_is_not_granted() {
    let (alice, bob, charlie) = (account(1), account(2), account(3));
    let mut registry = NFToken::deploy(alice, 2);
    registry.take_events();

    let rejected = Err(Error::Rejected);
    assert_eq!(registry.dispatch(Call::Mint { caller: alice, to: bob, value: 0 }), rejected);
    assert_eq!(
        registry.dispatch(Call::Mint { caller: alice, to: bob, value: u64::MAX - 1 }),
        rejected
    );
    assert_eq!(
        registry.dispatch(Call::Transfer { caller: bob, to: charlie, token_id: 1 }),
        rejected
    );
    assert_eq!(registry.dispatch(Call::Transfer { caller: bob, to: bob, token_id: 1 }), rejected);
    assert_eq!(
        registry.dispatch(Call::Transfer { caller: alice, to: alice, token_id: 3 }),
        rejected
    );
    assert_eq!(
        registry.dispatch(Call::TransferFrom { caller: bob, to: alice, token_id: 1 }),
        rejected
    );
    assert_eq!(
        registry.dispatch(Call::Approval { caller: bob, to: bob, token_id: 1, approved: true }),
        rejected
    );
    assert_eq!(
        registry.dispatch(Call::Approval {
            caller: alice,
            to: alice,
            token_id: 1,
            approved: false
        }),
        rejected
    );

    assert_eq!(registry.total_minted(), 2);
    assert_eq!(registry.balance_of(alice), 2);
    assert_eq!(registry.balance_of(bob), 0);
    assert_eq!(registry.owner_of(1), Some(alice));
    assert_eq!(registry.approved_for(1), None);
    assert_eq!(registry.take_events(), vec![]);
}

#[test]
fn dispatch_refuses_calls_whose_event_would_be_invalid() {
    let (alice, bob, charlie) = (account(1), account(2), account(3));
    let mut registry = NFToken::deploy(alice, 2);
    assert_eq!(registry.approval(alice, charlie, 1, true), true);
    registry.take_events();

    let violation = Err(Error::InternalInvariantViolation);
    assert_eq!(
        registry.dispatch(Call::Transfer { caller: alice, to: alice, token_id: 1 }),
        violation
    );
    assert_eq!(
        registry.dispatch(Call::TransferFrom { caller: alice, to: alice, token_id: 1 }),
        violation
    );
    assert_eq!(
        registry.dispatch(Call::TransferFrom { caller: charlie, to: alice, token_id: 1 }),
        violation
    );
    assert_eq!(
        registry.dispatch(Call::Approval {
            caller: alice,
            to: alice,
            token_id: 2,
            approved: true
        }),
        violation
    );

    assert_eq!(registry.owner_of(1), Some(alice));
    assert_eq!(registry.balance_of(alice), 2);
    assert_eq!(registry.balance_of(bob), 0);
    assert_eq!(registry.approved_for(1), Some(charlie));
    assert_eq!(registry.approved_for(2), None);
    assert_eq!(registry.take_events(), vec![]);
}
