//! The LP token on its own.

use soroban_amm::address::Address;
use soroban_amm::ledger::{DataKey, Ledger};
use soroban_amm::token::{LpToken, TokenError, TransferEvent};

fn addr(n: u8) -> Address {
    let mut strkey = [b'A'; 56];
    strkey[0] = b'G';
    strkey[55] = n;
    Address { strkey }
}

fn fresh() -> LpToken {
    LpToken {
        config: None,
        total_supply: 0,
        ledger: Ledger::new(),
    }
}

fn admin() -> Address {
    addr(1)
}

fn setup() -> LpToken {
    let mut token = fresh();
    token
        .initialize(admin(), b"Test Token".to_vec(), b"TST".to_vec(), 7)
        .unwrap();
    token
}

#[test]
fn lib_test_initialize_twice_panics() {
    let mut token = setup();
    let result = token.initialize(admin(), b"X".to_vec(), b"X".to_vec(), 7);
    assert!(result.is_err());
    assert_eq!(result, Err(TokenError::AlreadyInitialized));
    assert_eq!(token.name().unwrap(), b"Test Token".to_vec());
}

#[test]
fn test_mint_and_burn() {
    let mut token = setup();
    let user = addr(2);

    token.mint(admin(), user, 1_000).unwrap();
    assert_eq!(token.balance(user), 1_000);
    assert_eq!(token.total_supply(), 1_000);

    token.burn(admin(), user, 400).unwrap();
    assert_eq!(token.balance(user), 600);
    assert_eq!(token.total_supply(), 600);
}

#[test]
fn test_burn_insufficient_balance_panics() {
    let mut token = setup();
    let user = addr(2);
    token.mint(admin(), user, 100).unwrap();
    let result = token.burn(admin(), user, 200);
    assert!(result.is_err());
    assert_eq!(
        result,
        Err(TokenError::InsufficientBalance {
            available: 100,
            requested: 200
        })
    );
}

#[test]
fn test_transfer() {
    let mut token = setup();
    let (alice, bob) = (addr(2), addr(3));

    token.mint(admin(), alice, 500).unwrap();
    token.transfer(alice, alice, bob, 200).unwrap();

    assert_eq!(token.balance(alice), 300);
    assert_eq!(token.balance(bob), 200);
    assert_eq!(token.total_supply(), 500);
}

#[test]
fn test_transfer_insufficient_balance_panics() {
    let mut token = setup();
    let (alice, bob) = (addr(2), addr(3));
    token.mint(admin(), alice, 100).unwrap();
    let result = token.transfer(alice, alice, bob, 200);
    assert!(result.is_err());
    assert_eq!(token.balance(alice), 100);
    assert_eq!(token.balance(bob), 0);
}

#[test]
fn test_approve_and_transfer_from() {
    let mut token = setup();
    let (alice, bob, carol) = (addr(2), addr(3), addr(4));

    token.mint(admin(), alice, 1_000).unwrap();
    token.approve(alice, alice, bob, 300).unwrap();
    assert_eq!(token.allowance(alice, bob), 300);

    token.transfer_from(bob, bob, alice, carol, 200).unwrap();
    assert_eq!(token.balance(alice), 800);
    assert_eq!(token.balance(carol), 200);
    assert_eq!(token.allowance(alice, bob), 100);
}

#[test]
fn test_transfer_from_insufficient_allowance_panics() {
    let mut token = setup();
    let (alice, bob, carol) = (addr(2), addr(3), addr(4));

    token.mint(admin(), alice, 1_000).unwrap();
    token.approve(alice, alice, bob, 50).unwrap();
    let result = token.transfer_from(bob, bob, alice, carol, 100);
    assert!(result.is_err());
    assert_eq!(
        result,
        Err(TokenError::InsufficientAllowance {
            available: 50,
            requested: 100
        })
    );
    assert_eq!(token.allowance(alice, bob), 50);
}

#[test]
fn test_metadata() {
    let token = setup();
    assert_eq!(token.name(), Ok(b"Test Token".to_vec()));
    assert_eq!(token.symbol(), Ok(b"TST".to_vec()));
    assert_eq!(token.decimals(), Ok(7u32));
    assert_eq!(token.admin(), Ok(admin()));
}

// ── Edge cases and laws ─────────────────────────────────────────────────────────

#[test]
fn a_token_that_is_not_set_up_has_no_metadata_and_mints_nothing() {
    let mut token = fresh();
    assert_eq!(token.name(), Err(TokenError::NotInitialized));
    assert_eq!(token.symbol(), Err(TokenError::NotInitialized));
    assert_eq!(token.decimals(), Err(TokenError::NotInitialized));
    assert_eq!(token.admin(), Err(TokenError::NotInitialized));
    assert_eq!(token.mint(admin(), addr(2), 1), Err(TokenError::NotInitialized));
    assert_eq!(token.burn(admin(), addr(2), 1), Err(TokenError::NotInitialized));
    assert_eq!(token.total_supply(), 0);
    assert_eq!(token.balance(addr(2)), 0);
    assert_eq!(token.allowance(addr(2), addr(3)), 0);
}

#[test]
fn only_the_admin_mints_and_burns() {
    let mut token = setup();
    let user = addr(2);
    token.mint(admin(), user, 100).unwrap();
    let refusal = TokenError::Unauthorized {
        required: admin(),
        signer: user,
    };
    assert_eq!(token.mint(user, user, 1), Err(refusal));
    assert_eq!(token.burn(user, user, 1), Err(refusal));
    assert_eq!(token.balance(user), 100);
}

#[test]
fn only_the_owner_transfers_and_approves() {
    let mut token = setup();
    let (alice, bob) = (addr(2), addr(3));
    token.mint(admin(), alice, 100).unwrap();
    let refusal = TokenError::Unauthorized {
        required: alice,
        signer: bob,
    };
    assert_eq!(token.transfer(bob, alice, bob, 1), Err(refusal));
    assert_eq!(token.approve(bob, alice, bob, 1), Err(refusal));
    assert_eq!(
        token.transfer_from(alice, bob, alice, bob, 1),
        Err(TokenError::Unauthorized {
            required: bob,
            signer: alice
        })
    );
}

#[test]
fn a_transfer_announces_itself() {
    let mut token = setup();
    let (alice, bob) = (addr(2), addr(3));
    token.mint(admin(), alice, 10).unwrap();
    let event = token.transfer(alice, alice, bob, 4).unwrap();
    assert_eq!(
        event,
        TransferEvent {
            from: alice,
            to: bob,
            amount: 4
        }
    );
    assert_eq!(event.topic(), "transfer");
}

#[test]
fn a_transfer_to_oneself_changes_nothing() {
    let mut token = setup();
    let alice = addr(2);
    token.mint(admin(), alice, 10).unwrap();
    token.transfer(alice, alice, alice, 7).unwrap();
    assert_eq!(token.balance(alice), 10);
}

#[test]
fn a_negative_transfer_runs_backwards() {
    let mut token = setup();
    let (alice, bob) = (addr(2), addr(3));
    token.mint(admin(), bob, 10).unwrap();
    token.transfer(alice, alice, bob, -4).unwrap();
    assert_eq!(token.balance(alice), 4);
    assert_eq!(token.balance(bob), 6);
    assert_eq!(token.total_supply(), 10);
}

#[test]
fn negative_mints_and_burns_run_backwards() {
    let mut token = setup();
    let alice = addr(2);
    token.mint(admin(), alice, -3).unwrap();
    assert_eq!(token.balance(alice), -3);
    assert_eq!(token.total_supply(), -3);
    token.burn(admin(), alice, -8).unwrap();
    assert_eq!(token.balance(alice), 5);
    assert_eq!(token.total_supply(), 5);
}

#[test]
fn negative_spending_raises_the_allowance() {
    let mut token = setup();
    let (alice, bob, carol) = (addr(2), addr(3), addr(4));
    token.mint(admin(), carol, 10).unwrap();
    token.transfer_from(bob, bob, alice, carol, -4).unwrap();
    assert_eq!(token.allowance(alice, bob), 4);
    assert_eq!(token.balance(alice), 4);
    assert_eq!(token.balance(carol), 6);
}

#[test]
fn a_transfer_takes_only_from_its_signer() {
    let mut token = setup();
    let (alice, bob, carol) = (addr(2), addr(3), addr(4));
    for holder in [alice, bob, carol] {
        token.mint(admin(), holder, 10).unwrap();
    }
    token.transfer(alice, alice, bob, 4).unwrap();
    assert_eq!((token.balance(bob), token.balance(carol)), (14, 10));
    token.approve(carol, carol, alice, 3).unwrap();
    token.transfer_from(alice, alice, carol, bob, 3).unwrap();
    assert_eq!((token.balance(alice), token.balance(bob), token.balance(carol)), (6, 17, 7));
}

#[test]
fn approving_zero_revokes() {
    let mut token = setup();
    let (alice, bob) = (addr(2), addr(3));
    token.mint(admin(), alice, 10).unwrap();
    token.approve(alice, alice, bob, 5).unwrap();
    token.approve(alice, alice, bob, 0).unwrap();
    assert_eq!(
        token.transfer_from(bob, bob, alice, bob, 1),
        Err(TokenError::InsufficientAllowance {
            available: 0,
            requested: 1
        })
    );
}

#[test]
fn a_spender_cannot_move_more_than_there_is() {
    let mut token = setup();
    let (alice, bob) = (addr(2), addr(3));
    token.mint(admin(), alice, 10).unwrap();
    token.approve(alice, alice, bob, 50).unwrap();
    assert_eq!(
        token.transfer_from(bob, bob, alice, bob, 11),
        Err(TokenError::InsufficientBalance {
            available: 10,
            requested: 11
        })
    );
    assert_eq!(token.allowance(alice, bob), 50);
}

#[test]
fn overflow_is_refused_and_changes_nothing() {
    let mut token = setup();
    let (alice, bob) = (addr(2), addr(3));
    token.mint(admin(), alice, i128::MAX).unwrap();
    assert_eq!(token.mint(admin(), bob, 1), Err(TokenError::Overflow));
    assert_eq!(
        token.transfer(alice, alice, bob, -1),
        Err(TokenError::Overflow)
    );
    assert_eq!(token.balance(alice), i128::MAX);
    assert_eq!(token.total_supply(), i128::MAX);
}

#[test]
fn burning_undoes_minting() {
    let mut token = setup();
    let (alice, bob) = (addr(2), addr(3));
    token.mint(admin(), alice, 10).unwrap();
    token.mint(admin(), bob, 5).unwrap();
    token.burn(admin(), bob, 5).unwrap();
    assert_eq!(token.balance(alice), 10);
    assert_eq!(token.balance(bob), 0);
    assert_eq!(token.total_supply(), 10);
}

#[test]
fn the_supply_is_what_the_holders_hold() {
    let mut token = setup();
    let holders: Vec<Address> = (2..6).map(addr).collect();
    for (i, holder) in holders.iter().enumerate() {
        token.mint(admin(), *holder, 100 * (i as i128 + 1)).unwrap();
    }
    token.transfer(holders[3], holders[3], holders[0], 150).unwrap();
    token.approve(holders[1], holders[1], holders[2], 60).unwrap();
    token
        .transfer_from(holders[2], holders[2], holders[1], holders[0], 60)
        .unwrap();
    token.burn(admin(), holders[0], 110).unwrap();
    let held: i128 = holders.iter().map(|holder| token.balance(*holder)).sum();
    assert_eq!(held, token.total_supply());
    assert_eq!(held, 890);
}

#[test]
fn a_ledger_keeps_one_amount_under_each_key() {
    let mut ledger = Ledger::new();
    let (a, b) = (addr(2), addr(3));
    assert_eq!(ledger.get(DataKey::Balance(a)), None);
    ledger.set(DataKey::Balance(a), 1);
    ledger.set(DataKey::Allowance(a, b), 2);
    ledger.set(DataKey::Balance(a), 3);
    assert_eq!(ledger.get(DataKey::Balance(a)), Some(3));
    assert_eq!(ledger.get(DataKey::Allowance(a, b)), Some(2));
    assert_eq!(ledger.get(DataKey::Allowance(b, a)), None);
    assert_eq!(ledger.get_or_zero(DataKey::Balance(b)), 0);
}
