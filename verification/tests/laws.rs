//! The laws of the pool, on concrete values.

use soroban_amm::address::Address;
use soroban_amm::error::AmmError;
use soroban_amm::pool::{AmmPool, Call};
use soroban_amm::state::PoolState;

fn addr(n: u8) -> Address {
    let mut strkey = [b'A'; 56];
    strkey[0] = b'C';
    strkey[55] = n;
    Address { strkey }
}

fn ta() -> Address {
    addr(1)
}

fn tb() -> Address {
    addr(2)
}

fn who() -> Address {
    addr(9)
}

fn pool(reserve_a: i128, reserve_b: i128, total_shares: i128, fee_bps: i128) -> AmmPool {
    AmmPool {
        address: addr(4),
        state: Some(PoolState {
            token_a: ta(),
            token_b: tb(),
            lp_token: addr(3),
            reserve_a,
            reserve_b,
            total_shares,
            fee_bps,
        }),
    }
}

fn state(pool: &AmmPool) -> PoolState {
    pool.state.unwrap()
}

fn k(pool: &AmmPool) -> i128 {
    state(pool).reserve_a * state(pool).reserve_b
}

/// What calls add to the holdings of the pool in `token`.
fn received(calls: &[Call], token: Address) -> i128 {
    let mut total = 0;
    for call in calls {
        if let Call::Transfer { token: moved, from, to, amount } = call {
            if *moved == token && *to == addr(4) {
                total += amount;
            }
            if *moved == token && *from == addr(4) {
                total -= amount;
            }
        }
    }
    total
}

#[test]
fn a_swap_raises_the_product_where_there_is_a_fee() {
    for fee in [0, 1, 30, 9_999, 10_000] {
        for amount in [1, 2, 7, 1_000, 1_000_000] {
            let mut p = pool(12_345, 67_890, 1_000, fee);
            let before = k(&p);
            p.swap(who(), who(), ta(), amount, 0).unwrap();
            assert!(k(&p) >= before);
            assert!(fee == 0 || k(&p) > before);
        }
    }
}

#[test]
fn a_swap_pays_what_was_quoted() {
    let p = pool(12_345, 67_890, 1_000, 30);
    for amount in [1, 10, 5_000, 123_456_789] {
        let quote = p.get_amount_out(tb(), amount).unwrap();
        let mut q = p;
        let swap = q.swap(who(), who(), tb(), amount, quote).unwrap();
        assert_eq!(swap.amount_out, quote);
        assert!(quote < 12_345);
    }
}

#[test]
fn selling_more_pays_no_less() {
    let p = pool(1_000, 777, 1_000, 30);
    let mut last = 0;
    for amount in 0..2_000 {
        let quote = p.get_amount_out(ta(), amount).unwrap();
        assert!(quote >= last);
        last = quote;
    }
}

#[test]
fn the_quoted_cost_suffices_and_is_tight() {
    let p = pool(5_000, 3_000, 1_000, 30);
    for want in 0..2_000 {
        let cost = p.get_amount_in(tb(), want).unwrap();
        assert!(p.get_amount_out(ta(), cost).unwrap() >= want);
        assert!(p.get_amount_out(ta(), cost - 1).unwrap() <= want);
    }
}

#[test]
fn quotes_round_trip_within_one() {
    let p = pool(5_000, 3_000, 1_000, 30);
    for amount in 0..2_000 {
        let out = p.get_amount_out(ta(), amount).unwrap();
        assert!(p.get_amount_in(tb(), out).unwrap() <= amount + 1);
    }
}

#[test]
fn quotes_round_trip_from_below() {
    let p = pool(1_000_000, 2_000_000, 1_000, 30);
    for amount in [1, 2, 3, 1_000, 100_000] {
        let out = p.get_amount_out(ta(), amount).unwrap();
        let cost = p.get_amount_in(tb(), out).unwrap();
        assert!(amount <= cost && cost <= amount + 1);
    }
    // Where several amounts pay the same, the cost is that of the least of them.
    let q = pool(5_000, 1_000, 1_000, 0);
    assert_eq!(q.get_amount_out(ta(), 9), Ok(1));
    assert_eq!(q.get_amount_in(tb(), 1), Ok(6));
}

#[test]
fn trading_back_gains_nothing() {
    let mut p = pool(10_000, 10_000, 1_000, 0);
    let out = p.swap(who(), who(), ta(), 333, 0).unwrap().amount_out;
    let back = p.swap(who(), who(), tb(), out, 0).unwrap().amount_out;
    assert!(back <= 333);
}

#[test]
fn a_full_fee_pays_nothing_and_no_fee_pays_the_bare_curve() {
    assert_eq!(pool(10, 10, 1, 10_000).get_amount_out(ta(), 1_000), Ok(0));
    assert_eq!(
        pool(1_234, 5_678, 1, 0).get_amount_out(ta(), 99),
        Ok(99 * 5_678 / (1_234 + 99))
    );
}

#[test]
fn the_first_deposit_takes_any_ratio() {
    let mut p = pool(0, 0, 0, 30);
    let deposit = p.add_liquidity(who(), who(), 1, 1_000_000_000_007, 0).unwrap();
    assert_eq!(deposit.shares, 1_000_000);
    assert_eq!(p, pool(1, 1_000_000_000_007, 1_000_000, 30));
}

#[test]
fn deposits_and_withdrawals_do_not_dilute() {
    let mut p = pool(1_001, 3_003, 1_000, 30);
    let before = state(&p);
    p.add_liquidity(who(), who(), 17, 99, 0).unwrap();
    let after = state(&p);
    assert!(after.reserve_a * before.total_shares >= before.reserve_a * after.total_shares);
    assert!(after.reserve_b * before.total_shares >= before.reserve_b * after.total_shares);
    assert!(after.total_shares * after.total_shares <= k(&p));

    p.remove_liquidity(who(), who(), 123, 123, 0, 0).unwrap();
    let last = state(&p);
    assert!(last.reserve_a * after.total_shares >= after.reserve_a * last.total_shares);
    assert!(last.reserve_b * after.total_shares >= after.reserve_b * last.total_shares);
    assert!(last.total_shares * last.total_shares <= k(&p));
}

#[test]
fn depositing_and_withdrawing_gains_nothing() {
    let mut first = pool(0, 0, 0, 30);
    let shares = first.add_liquidity(who(), who(), 500, 900, 0).unwrap().shares;
    let paid = first.remove_liquidity(who(), who(), shares, shares, 0, 0).unwrap();
    assert_eq!((paid.amount_a, paid.amount_b), (500, 900));
    assert_eq!(first, pool(0, 0, 0, 30));

    let mut later = pool(1_001, 3_003, 1_000, 30);
    let shares = later.add_liquidity(who(), who(), 500, 900, 0).unwrap().shares;
    let paid = later.remove_liquidity(who(), who(), shares, shares, 0, 0).unwrap();
    assert!(paid.amount_a <= 500 && paid.amount_b <= 900);
}

#[test]
fn the_last_withdrawal_empties_the_pool() {
    let mut p = pool(1_001, 3_003, 77, 30);
    let paid = p.remove_liquidity(who(), who(), 77, 77, 1_001, 3_003).unwrap();
    assert_eq!((paid.amount_a, paid.amount_b), (1_001, 3_003));
    assert_eq!(p, pool(0, 0, 0, 30));
    assert_eq!(
        p.get_amount_out(ta(), 1),
        Err(AmmError::EmptyPool {
            reserve_in: 0,
            reserve_out: 0
        })
    );
}

#[test]
fn the_reserves_change_by_what_the_calls_move() {
    let mut p = pool(1_001, 3_003, 1_000, 30);
    let s0 = state(&p);
    let deposit = p.add_liquidity(who(), who(), 17, 99, 0).unwrap();
    let s1 = state(&p);
    assert_eq!(received(&deposit.calls, ta()), s1.reserve_a - s0.reserve_a);
    assert_eq!(received(&deposit.calls, tb()), s1.reserve_b - s0.reserve_b);
    let swap = p.swap(who(), who(), tb(), 250, 0).unwrap();
    let s2 = state(&p);
    assert_eq!(received(&swap.calls, ta()), s2.reserve_a - s1.reserve_a);
    assert_eq!(received(&swap.calls, tb()), s2.reserve_b - s1.reserve_b);
    let withdrawal = p.remove_liquidity(who(), who(), 40, 40, 0, 0).unwrap();
    let s3 = state(&p);
    assert_eq!(received(&withdrawal.calls, ta()), s3.reserve_a - s2.reserve_a);
    assert_eq!(received(&withdrawal.calls, tb()), s3.reserve_b - s2.reserve_b);
}

#[test]
fn prices_are_reciprocal() {
    let (price_a, price_b) = pool(3, 7, 1, 30).price_ratio().unwrap();
    assert_eq!((price_a, price_b), (2_333_333, 428_571));
    assert!(price_a * price_b <= 1_000_000 * 1_000_000);
}
