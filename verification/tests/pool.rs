//! A pool together with the token contracts that it calls.

use soroban_amm::address::Address;
use soroban_amm::error::AmmError;
use soroban_amm::ledger::Ledger;
use soroban_amm::pool::{AmmPool, Call, PoolEvent, PoolInfo};
use soroban_amm::state::PoolState;
use soroban_amm::token::{LpToken, TokenError};

fn addr(n: u8) -> Address {
    let mut strkey = [b'A'; 56];
    strkey[0] = b'G';
    strkey[55] = n;
    Address { strkey }
}

const ADMIN: u8 = 1;
const AMM: u8 = 2;
const LP: u8 = 3;
const TA: u8 = 4;
const TB: u8 = 5;
const PROVIDER: u8 = 10;
const TRADER: u8 = 11;
const RECIPIENT: u8 = 12;

fn new_token(admin: Address) -> LpToken {
    let mut token = LpToken {
        config: None,
        total_supply: 0,
        ledger: Ledger::new(),
    };
    token
        .initialize(admin, b"Token".to_vec(), b"TOK".to_vec(), 7)
        .unwrap();
    token
}

/// A pool, its LP token, and its two tokens, each at its own address.
struct Market {
    pool: AmmPool,
    lp: LpToken,
    ta: LpToken,
    tb: LpToken,
    events: Vec<PoolEvent>,
}

impl Market {
    fn new() -> Market {
        Market {
            pool: AmmPool {
                address: addr(AMM),
                state: None,
            },
            lp: new_token(addr(AMM)),
            ta: new_token(addr(ADMIN)),
            tb: new_token(addr(ADMIN)),
            events: Vec::new(),
        }
    }

    fn with_fee(fee_bps: i128) -> Market {
        let mut market = Market::new();
        market
            .pool
            .initialize(addr(TA), addr(TB), addr(LP), fee_bps)
            .unwrap();
        market
    }

    fn seeded(fee_bps: i128, amount_a: i128, amount_b: i128) -> Market {
        let mut market = Market::with_fee(fee_bps);
        market.mint_a(PROVIDER, amount_a);
        market.mint_b(PROVIDER, amount_b);
        market.add_liquidity(PROVIDER, amount_a, amount_b, 0).unwrap();
        market
    }

    fn mint_a(&mut self, to: u8, amount: i128) {
        self.ta.mint(addr(ADMIN), addr(to), amount).unwrap();
    }

    fn mint_b(&mut self, to: u8, amount: i128) {
        self.tb.mint(addr(ADMIN), addr(to), amount).unwrap();
    }

    fn token(&mut self, token: &Address) -> &mut LpToken {
        if *token == addr(LP) {
            &mut self.lp
        } else if *token == addr(TA) {
            &mut self.ta
        } else if *token == addr(TB) {
            &mut self.tb
        } else {
            panic!("a call of a contract that does not exist")
        }
    }

    fn carry_out(&mut self, calls: &[Call]) -> Result<(), TokenError> {
        let pool = self.pool.address;
        for call in calls {
            match call {
                Call::Transfer { token, from, to, amount } => {
                    self.token(token).transfer(*from, *from, *to, *amount)?;
                }
                Call::Mint { token, to, amount } => {
                    self.token(token).mint(pool, *to, *amount)?;
                }
                Call::Burn { token, from, amount } => {
                    self.token(token).burn(pool, *from, *amount)?;
                }
            }
        }
        Ok(())
    }

    fn add_liquidity(&mut self, provider: u8, a: i128, b: i128, min: i128) -> Result<i128, AmmError> {
        let provider = addr(provider);
        let deposit = self.pool.add_liquidity(provider, provider, a, b, min)?;
        self.carry_out(&deposit.calls).unwrap();
        self.events.push(deposit.event);
        self.check();
        Ok(deposit.shares)
    }

    fn remove_liquidity(
        &mut self,
        provider: u8,
        shares: i128,
        min_a: i128,
        min_b: i128,
    ) -> Result<(i128, i128), AmmError> {
        let owned = self.shares_of(provider);
        let provider = addr(provider);
        let withdrawal = self
            .pool
            .remove_liquidity(provider, provider, owned, shares, min_a, min_b)?;
        self.carry_out(&withdrawal.calls).unwrap();
        self.events.push(withdrawal.event);
        self.check();
        Ok((withdrawal.amount_a, withdrawal.amount_b))
    }

    fn swap(&mut self, trader: u8, token_in: u8, amount_in: i128, min: i128) -> Result<i128, AmmError> {
        let trader = addr(trader);
        let swap = self
            .pool
            .swap(trader, trader, addr(token_in), amount_in, min)?;
        self.carry_out(&swap.calls).unwrap();
        self.events.push(swap.event);
        self.check();
        Ok(swap.amount_out)
    }

    fn shares_of(&mut self, provider: u8) -> i128 {
        let query = self.pool.shares_of(addr(provider)).unwrap();
        let holder = query.holder;
        self.token(&query.token).balance(holder)
    }

    fn info(&self) -> PoolInfo {
        self.pool.get_info().unwrap()
    }

    /// The pool holds its reserves, and the LP token has a supply of the shares.
    fn check(&self) {
        let info = self.info();
        assert_eq!(self.ta.balance(addr(AMM)), info.reserve_a);
        assert_eq!(self.tb.balance(addr(AMM)), info.reserve_b);
        assert_eq!(self.lp.total_supply(), info.total_shares);
    }
}

#[test]
fn test_add_and_swap() {
    let mut m = Market::with_fee(30);
    m.mint_a(PROVIDER, 1_000_000);
    m.mint_b(PROVIDER, 2_000_000);

    let shares = m.add_liquidity(PROVIDER, 1_000_000, 2_000_000, 0).unwrap();
    assert!(shares > 0);

    let info = m.info();
    assert_eq!(info.reserve_a, 1_000_000);
    assert_eq!(info.reserve_b, 2_000_000);

    m.mint_a(TRADER, 100_000);
    let out = m.swap(TRADER, TA, 100_000, 0).unwrap();
    assert!(out > 0);
    assert!(out < 200_000);
}

#[test]
fn test_price_ratio() {
    let m = Market::seeded(30, 2_000_000, 1_000_000);
    let (price_a, price_b) = m.pool.price_ratio().unwrap();
    assert_eq!(price_a, 500_000);
    assert_eq!(price_b, 2_000_000);
}

#[test]
fn test_price_ratio_panics_on_empty_pool() {
    let empty = Err(AmmError::EmptyPool {
        reserve_in: 0,
        reserve_out: 0,
    });
    assert_eq!(Market::with_fee(30).pool.price_ratio(), empty);
    assert_eq!(Market::new().pool.price_ratio(), empty);
}

#[test]
fn test_remove_liquidity() {
    let mut m = Market::with_fee(30);
    m.mint_a(PROVIDER, 1_000_000);
    m.mint_b(PROVIDER, 1_000_000);
    let shares = m.add_liquidity(PROVIDER, 1_000_000, 1_000_000, 0).unwrap();
    let (out_a, out_b) = m.remove_liquidity(PROVIDER, shares, 0, 0).unwrap();
    assert!(out_a > 0 && out_b > 0);
    assert_eq!(m.info().total_shares, 0);
}

#[test]
fn test_initialize_twice_panics() {
    let mut m = Market::with_fee(30);
    let before = m.pool;
    let result = m.pool.initialize(addr(TA), addr(TB), addr(LP), 30);
    assert!(result.is_err());
    assert_eq!(result, Err(AmmError::AlreadyInitialized { contract: addr(AMM) }));
    assert_eq!(m.pool, before);
}

#[test]
fn test_invalid_fee_panics() {
    let mut m = Market::new();
    let result = m.pool.initialize(addr(TA), addr(TB), addr(LP), 10_001);
    assert!(result.is_err());
    assert_eq!(result, Err(AmmError::InvalidFee { fee_bps: 10_001 }));
    assert_eq!(m.pool.state, None);
}

#[test]
fn test_swap_b_to_a() {
    let mut m = Market::seeded(30, 1_000_000, 1_000_000);
    m.mint_b(TRADER, 100_000);
    let out = m.swap(TRADER, TB, 100_000, 0).unwrap();
    assert!(out > 0 && out < 100_000);

    let info = m.info();
    assert_eq!(info.reserve_b, 1_100_000);
    assert_eq!(info.reserve_a, 1_000_000 - out);
}

#[test]
fn test_swap_slippage_panics() {
    let mut m = Market::seeded(30, 1_000_000, 1_000_000);
    m.mint_a(TRADER, 100_000);
    let before = m.pool;
    let result = m.swap(TRADER, TA, 100_000, 200_000);
    assert!(result.is_err());
    assert_eq!(
        result,
        Err(AmmError::OutputBelowMinimum {
            amount_out: 90_661,
            min_out: 200_000
        })
    );
    assert_eq!(m.pool, before);
}

#[test]
fn test_fee_accrues_to_reserves() {
    let mut m = Market::seeded(30, 1_000_000, 1_000_000);
    let amount_in = 100_000_i128;
    m.mint_a(TRADER, amount_in);
    let out = m.swap(TRADER, TA, amount_in, 0).unwrap();

    let info = m.info();
    assert_eq!(info.reserve_a, 1_000_000 + amount_in);
    assert_eq!(info.reserve_b, 1_000_000 - out);
    assert!(info.reserve_a * info.reserve_b > 1_000_000 * 1_000_000);
}

#[test]
fn test_add_liquidity_slippage_panics() {
    let mut m = Market::with_fee(30);
    m.mint_a(PROVIDER, 1_000_000);
    m.mint_b(PROVIDER, 1_000_000);
    let result = m.add_liquidity(PROVIDER, 1_000_000, 1_000_000, i128::MAX);
    assert!(result.is_err());
}

#[test]
fn test_remove_liquidity_slippage_panics() {
    let mut m = Market::with_fee(30);
    m.mint_a(PROVIDER, 1_000_000);
    m.mint_b(PROVIDER, 1_000_000);
    let shares = m.add_liquidity(PROVIDER, 1_000_000, 1_000_000, 0).unwrap();
    let result = m.remove_liquidity(PROVIDER, shares, i128::MAX, 0);
    assert!(result.is_err());
}

#[test]
fn test_lp_token_transfer_enables_remove() {
    let mut m = Market::with_fee(30);
    m.mint_a(PROVIDER, 1_000_000);
    m.mint_b(PROVIDER, 1_000_000);
    let shares = m.add_liquidity(PROVIDER, 1_000_000, 1_000_000, 0).unwrap();

    m.lp
        .transfer(addr(PROVIDER), addr(PROVIDER), addr(RECIPIENT), shares)
        .unwrap();

    assert_eq!(m.shares_of(PROVIDER), 0);
    assert_eq!(m.shares_of(RECIPIENT), shares);

    let (out_a, out_b) = m.remove_liquidity(RECIPIENT, shares, 0, 0).unwrap();
    assert!(out_a > 0 && out_b > 0);
    assert_eq!(m.info().total_shares, 0);
}

#[test]
fn test_multiple_lps() {
    let mut m = Market::with_fee(30);
    let (lp1, lp2) = (20, 21);
    m.mint_a(lp1, 1_000_000);
    m.mint_b(lp1, 1_000_000);
    let shares1 = m.add_liquidity(lp1, 1_000_000, 1_000_000, 0).unwrap();

    m.mint_a(lp2, 500_000);
    m.mint_b(lp2, 500_000);
    let shares2 = m.add_liquidity(lp2, 500_000, 500_000, 0).unwrap();

    assert_eq!(m.info().total_shares, shares1 + shares2);

    m.remove_liquidity(lp1, shares1, 0, 0).unwrap();
    m.remove_liquidity(lp2, shares2, 0, 0).unwrap();
    assert_eq!(m.info().total_shares, 0);
}

#[test]
fn test_get_amount_out_matches_swap() {
    let mut m = Market::seeded(30, 1_000_000, 1_000_000);
    let amount_in = 50_000_i128;
    let quoted = m.pool.get_amount_out(addr(TA), amount_in).unwrap();

    m.mint_a(TRADER, amount_in);
    let actual = m.swap(TRADER, TA, amount_in, 0).unwrap();
    assert_eq!(quoted, actual);
}

#[test]
fn test_sequential_swaps_invariant() {
    let initial_amt = 1_000_000_i128;
    let mut m = Market::seeded(30, initial_amt, initial_amt);

    let info = m.info();
    let initial_k = info.reserve_a * info.reserve_b;
    let mut current_k = initial_k;
    let swap_amt = 10_000_i128;

    for i in 0..10 {
        if i % 2 == 0 {
            m.mint_a(TRADER, swap_amt);
            m.swap(TRADER, TA, swap_amt, 0).unwrap();
        } else {
            m.mint_b(TRADER, swap_amt);
            m.swap(TRADER, TB, swap_amt, 0).unwrap();
        }

        let new_info = m.info();
        let new_k = new_info.reserve_a * new_info.reserve_b;
        assert!(
            new_k >= initial_k,
            "Invariant violated: new_k ({new_k}) < initial_k ({initial_k}) at swap {i}"
        );
        assert!(
            new_k >= current_k,
            "k decreased: new_k ({new_k}) < current_k ({current_k}) at swap {i}"
        );
        current_k = new_k;
    }

    assert!(current_k > initial_k);
}

#[test]
fn test_get_amount_in_round_trip() {
    let m = Market::seeded(30, 1_000_000, 2_000_000);

    let amount_in = 100_000_i128;
    let amount_out = m.pool.get_amount_out(addr(TA), amount_in).unwrap();
    assert!(amount_out > 0);

    let amount_in_reverse = m.pool.get_amount_in(addr(TB), amount_out).unwrap();
    assert!(
        amount_in_reverse >= amount_in,
        "reverse quote should be >= original input"
    );
    assert!(
        amount_in_reverse <= amount_in + 1,
        "reverse quote should be at most 1 unit above original input"
    );
}

#[test]
fn test_remove_liquidity_emits_event() {
    let mut m = Market::with_fee(30);
    m.mint_a(PROVIDER, 1_000_000);
    m.mint_b(PROVIDER, 1_000_000);
    let shares = m.add_liquidity(PROVIDER, 1_000_000, 1_000_000, 0).unwrap();
    m.remove_liquidity(PROVIDER, shares, 0, 0).unwrap();

    let rm_liq_event = m.events.iter().find(|event| event.topic() == "rm_liq");
    assert!(rm_liq_event.is_some(), "rm_liq event not emitted");
    assert_eq!(
        rm_liq_event,
        Some(&PoolEvent::RemoveLiquidity {
            provider: addr(PROVIDER),
            shares,
            amount_a: 1_000_000,
            amount_b: 1_000_000,
        })
    );
}

#[test]
fn test_swap_on_empty_pool_panics() {
    let mut m = Market::with_fee(30);
    m.mint_a(TRADER, 1_000);
    let result = m.swap(TRADER, TA, 1_000, 0);
    assert!(result.is_err());
    assert_eq!(
        result,
        Err(AmmError::EmptyPool {
            reserve_in: 0,
            reserve_out: 0
        })
    );
}

#[test]
fn test_fee_bps_zero_succeeds() {
    let mut m = Market::seeded(0, 1_000_000, 1_000_000);
    let amount_in = 100_000_i128;
    m.mint_a(TRADER, amount_in);
    let out = m.swap(TRADER, TA, amount_in, 0).unwrap();
    let expected = amount_in * 1_000_000 / (1_000_000 + amount_in);
    assert_eq!(out, expected);
}

#[test]
fn test_fee_bps_max_succeeds() {
    let mut m = Market::seeded(10_000, 1_000_000, 1_000_000);
    m.mint_a(TRADER, 100_000);
    let result = m.swap(TRADER, TA, 100_000, 0);
    assert!(result.is_ok());
    assert_eq!(result.unwrap(), 0);
}

#[test]
fn test_min_shares_exact_succeeds() {
    let mut m = Market::with_fee(30);
    m.mint_a(PROVIDER, 1_000_000);
    m.mint_b(PROVIDER, 1_000_000);
    let shares = m
        .add_liquidity(PROVIDER, 1_000_000, 1_000_000, 1_000_000)
        .unwrap();
    assert_eq!(shares, 1_000_000);
}

#[test]
fn test_min_shares_off_by_one_panics() {
    let mut m = Market::with_fee(30);
    m.mint_a(PROVIDER, 1_000_000);
    m.mint_b(PROVIDER, 1_000_000);
    let result = m.add_liquidity(PROVIDER, 1_000_000, 1_000_000, 1_000_001);
    assert!(result.is_err());
    assert_eq!(
        result,
        Err(AmmError::SharesBelowMinimum {
            shares: 1_000_000,
            min_shares: 1_000_001
        })
    );
}

// ── Exact values and edge cases ─────────────────────────────────────────────────

fn pool(reserve_a: i128, reserve_b: i128, total_shares: i128, fee_bps: i128) -> AmmPool {
    AmmPool {
        address: addr(AMM),
        state: Some(PoolState {
            token_a: addr(TA),
            token_b: addr(TB),
            lp_token: addr(LP),
            reserve_a,
            reserve_b,
            total_shares,
            fee_bps,
        }),
    }
}

#[test]
fn initialize_stores_the_setup() {
    let mut m = Market::new();
    m.pool.initialize(addr(TA), addr(TB), addr(LP), 30).unwrap();
    assert_eq!(m.pool, pool(0, 0, 0, 30));
    assert_eq!(
        m.pool.get_info(),
        Ok(PoolInfo {
            token_a: addr(TA),
            token_b: addr(TB),
            reserve_a: 0,
            reserve_b: 0,
            total_shares: 0,
            fee_bps: 30,
        })
    );
}

#[test]
fn initialize_refuses_one_token_twice() {
    let mut m = Market::new();
    assert_eq!(
        m.pool.initialize(addr(TA), addr(TA), addr(LP), 30),
        Err(AmmError::IdenticalTokens { token: addr(TA) })
    );
    assert_eq!(
        m.pool.initialize(addr(TA), addr(TB), addr(LP), -1),
        Err(AmmError::InvalidFee { fee_bps: -1 })
    );
}

#[test]
fn a_pool_that_is_not_set_up_refuses() {
    let mut p = Market::new().pool;
    let who = addr(PROVIDER);
    assert_eq!(p.get_info(), Err(AmmError::NotInitialized));
    assert_eq!(p.shares_of(who), Err(AmmError::NotInitialized));
    assert_eq!(p.get_amount_out(addr(TA), 1), Err(AmmError::NotInitialized));
    assert_eq!(p.get_amount_in(addr(TA), 1), Err(AmmError::NotInitialized));
    assert_eq!(p.swap(who, who, addr(TA), 1, 0), Err(AmmError::NotInitialized));
    assert_eq!(p.add_liquidity(who, who, 1, 1, 0), Err(AmmError::NotInitialized));
    assert_eq!(
        p.remove_liquidity(who, who, 1, 1, 0, 0),
        Err(AmmError::NotInitialized)
    );
}

#[test]
fn only_the_owner_authorizes() {
    let mut p = pool(1_000, 1_000, 1_000, 30);
    let refusal = AmmError::Unauthorized {
        required: addr(PROVIDER),
        signer: addr(TRADER),
    };
    assert_eq!(
        p.add_liquidity(addr(TRADER), addr(PROVIDER), 1, 1, 0),
        Err(refusal)
    );
    assert_eq!(
        p.remove_liquidity(addr(TRADER), addr(PROVIDER), 1, 1, 0, 0),
        Err(refusal)
    );
    assert_eq!(
        p.swap(addr(TRADER), addr(PROVIDER), addr(TA), 1, 0),
        Err(refusal)
    );
    assert_eq!(p, pool(1_000, 1_000, 1_000, 30));
}

#[test]
fn amounts_have_to_be_positive() {
    let who = addr(PROVIDER);
    let mut p = pool(1_000, 1_000, 1_000, 30);
    assert_eq!(
        p.add_liquidity(who, who, 0, 5, 0),
        Err(AmmError::NonPositiveAmounts {
            amount_a: 0,
            amount_b: 5
        })
    );
    assert_eq!(
        p.add_liquidity(who, who, 5, -1, 0),
        Err(AmmError::NonPositiveAmounts {
            amount_a: 5,
            amount_b: -1
        })
    );
    assert_eq!(
        p.remove_liquidity(who, who, 10, 0, 0, 0),
        Err(AmmError::NonPositiveShares { shares: 0 })
    );
    assert_eq!(
        p.swap(who, who, addr(TA), 0, 0),
        Err(AmmError::NonPositiveAmountIn { amount_in: 0 })
    );
}

#[test]
fn a_later_deposit_is_worth_the_lesser_amount() {
    let who = addr(PROVIDER);
    let mut p = pool(1_000, 4_000, 2_000, 30);
    let deposit = p.add_liquidity(who, who, 100, 1_000, 200).unwrap();
    // 100 * 2_000 / 1_000 = 200, 1_000 * 2_000 / 4_000 = 500
    assert_eq!(deposit.shares, 200);
    assert_eq!(p, pool(1_100, 5_000, 2_200, 30));
    assert_eq!(
        deposit.calls,
        vec![
            Call::Transfer {
                token: addr(TA),
                from: who,
                to: addr(AMM),
                amount: 100
            },
            Call::Transfer {
                token: addr(TB),
                from: who,
                to: addr(AMM),
                amount: 1_000
            },
            Call::Mint {
                token: addr(LP),
                to: who,
                amount: 200
            },
        ]
    );
    assert_eq!(
        deposit.event,
        PoolEvent::AddLiquidity {
            provider: who,
            amount_a: 100,
            amount_b: 1_000,
            shares: 200
        }
    );
    assert_eq!(deposit.event.topic(), "add_liquidity");
}

#[test]
fn a_deposit_worth_no_share_is_refused() {
    let who = addr(PROVIDER);
    let mut p = pool(1_000_000, 1_000_000, 10, 30);
    assert_eq!(p.add_liquidity(who, who, 1, 1, 0), Err(AmmError::ZeroShares));
}

#[test]
fn a_withdrawal_pays_the_part_rounded_down() {
    let who = addr(PROVIDER);
    let mut p = pool(1_000, 2_001, 300, 30);
    let withdrawal = p.remove_liquidity(who, who, 150, 100, 333, 667).unwrap();
    assert_eq!((withdrawal.amount_a, withdrawal.amount_b), (333, 667));
    assert_eq!(p, pool(667, 1_334, 200, 30));
    assert_eq!(
        withdrawal.calls,
        vec![
            Call::Burn {
                token: addr(LP),
                from: who,
                amount: 100
            },
            Call::Transfer {
                token: addr(TA),
                from: addr(AMM),
                to: who,
                amount: 333
            },
            Call::Transfer {
                token: addr(TB),
                from: addr(AMM),
                to: who,
                amount: 667
            },
        ]
    );
}

#[test]
fn a_withdrawal_is_refused_beyond_what_is_owned_or_below_the_minimum() {
    let who = addr(PROVIDER);
    let mut p = pool(1_000, 2_000, 100, 30);
    assert_eq!(
        p.remove_liquidity(who, who, 9, 10, 0, 0),
        Err(AmmError::InsufficientShares {
            owned: 9,
            requested: 10
        })
    );
    assert_eq!(
        p.remove_liquidity(who, who, 10, 10, 101, 0),
        Err(AmmError::AmountABelowMinimum {
            amount_a: 100,
            min_a: 101
        })
    );
    assert_eq!(
        p.remove_liquidity(who, who, 10, 10, 100, 201),
        Err(AmmError::AmountBBelowMinimum {
            amount_b: 200,
            min_b: 201
        })
    );
    assert_eq!(
        pool(0, 0, 0, 30).remove_liquidity(who, who, 10, 10, 0, 0),
        Err(AmmError::DivisionByZero)
    );
}

#[test]
fn a_swap_pays_along_the_curve() {
    let who = addr(TRADER);
    let mut p = pool(1_000_000, 2_000_000, 1_000, 30);
    let swap = p.swap(who, who, addr(TA), 100_000, 181_322).unwrap();
    // 997_000_000 * 2_000_000 / (10_000_000_000 + 997_000_000)
    assert_eq!(swap.amount_out, 181_322);
    assert_eq!(p, pool(1_100_000, 1_818_678, 1_000, 30));
    assert_eq!(
        swap.calls,
        vec![
            Call::Transfer {
                token: addr(TA),
                from: who,
                to: addr(AMM),
                amount: 100_000
            },
            Call::Transfer {
                token: addr(TB),
                from: addr(AMM),
                to: who,
                amount: 181_322
            },
        ]
    );
    assert_eq!(
        swap.event,
        PoolEvent::Swap {
            trader: who,
            token_in: addr(TA),
            amount_in: 100_000,
            amount_out: 181_322
        }
    );
    assert_eq!(swap.event.topic(), "swap");
}

#[test]
fn a_swap_of_a_foreign_token_is_refused() {
    let who = addr(TRADER);
    let mut p = pool(1_000, 1_000, 1_000, 30);
    let refusal = AmmError::UnknownToken { token: addr(LP) };
    assert_eq!(p.swap(who, who, addr(LP), 1, 0), Err(refusal));
    assert_eq!(p.get_amount_out(addr(LP), 1), Err(refusal));
    assert_eq!(p.get_amount_in(addr(LP), 1), Err(refusal));
}

#[test]
fn a_swap_that_would_empty_the_reserve_is_refused() {
    // Only a fee beyond the whole amount makes the formula reach the reserve.
    let who = addr(TRADER);
    let mut p = pool(1, 1_000, 1_000, 30_000);
    assert_eq!(
        p.swap(who, who, addr(TA), 1, 0),
        Err(AmmError::InsufficientLiquidity {
            amount_out: 2_000,
            reserve_out: 1_000
        })
    );
    assert_eq!(
        pool(1_000, 1_000, 1_000, 30).get_amount_in(addr(TB), 1_000),
        Err(AmmError::InsufficientLiquidity {
            amount_out: 1_000,
            reserve_out: 1_000
        })
    );
}

#[test]
fn quotes_of_negative_amounts_round_toward_zero() {
    let p = pool(1_000, 1_000, 1_000, 0);
    // -100_000 * 1_000 / (10_000_000 - 100_000) = -10.1
    assert_eq!(p.get_amount_out(addr(TA), -10), Ok(-10));
    assert_eq!(
        p.get_amount_out(addr(TA), -1_000),
        Err(AmmError::DivisionByZero)
    );
    // 1_000 * -10 * 10_000 / (1_010 * 10_000) + 1 = -9 + 1
    assert_eq!(p.get_amount_in(addr(TB), -10), Ok(-8));
}

#[test]
fn the_cost_of_an_output_is_rounded_up() {
    let p = pool(1_000_000, 2_000_000, 1_000, 30);
    // 1_000_000 * 181_322 * 10_000 / (1_818_678 * 9_970) + 1
    assert_eq!(p.get_amount_in(addr(TB), 181_322), Ok(100_000));
    assert_eq!(p.get_amount_in(addr(TB), 0), Ok(1));
    assert_eq!(
        pool(1_000, 1_000, 1_000, 10_000).get_amount_in(addr(TB), 1),
        Err(AmmError::DivisionByZero)
    );
}

#[test]
fn overflow_is_refused() {
    let who = addr(PROVIDER);
    let mut p = pool(0, 0, 0, 30);
    assert_eq!(
        p.add_liquidity(who, who, i128::MAX, 2, 0),
        Err(AmmError::Overflow)
    );
    assert_eq!(
        pool(1, 1, 1, 30).swap(who, who, addr(TA), i128::MAX, 0),
        Err(AmmError::Overflow)
    );
    assert_eq!(
        pool(1, i128::MAX, 1, 30).price_ratio(),
        Err(AmmError::Overflow)
    );
    assert_eq!(
        pool(i128::MAX, 1, 2, 30).remove_liquidity(who, who, 2, 2, 0, 0),
        Err(AmmError::Overflow)
    );
}

#[test]
fn the_first_deposit_takes_the_greatest_amount() {
    let who = addr(PROVIDER);
    let root = 13_043_817_825_332_782_212_i128;
    for (a, b) in [(i128::MAX, 1), (1, i128::MAX)] {
        let mut p = pool(0, 0, 0, 30);
        assert_eq!(p.add_liquidity(who, who, a, b, root).unwrap().shares, root);
        assert_eq!(p, pool(a, b, root, 30));
    }
}

#[test]
fn square_roots_round_down() {
    assert_eq!(AmmPool::sqrt(0), Ok(0));
    assert_eq!(AmmPool::sqrt(1), Ok(1));
    assert_eq!(AmmPool::sqrt(2), Ok(1));
    assert_eq!(AmmPool::sqrt(3), Ok(1));
    assert_eq!(AmmPool::sqrt(4), Ok(2));
    assert_eq!(AmmPool::sqrt(2_000_000_000_000), Ok(1_414_213));
    let root = 13_043_817_825_332_782_212_i128;
    assert_eq!(AmmPool::sqrt(i128::MAX - 1), Ok(root));
    assert_eq!(AmmPool::sqrt(i128::MAX), Ok(root));
    assert_eq!(
        AmmPool::sqrt(-4),
        Err(AmmError::NegativeSquareRoot { n: -4 })
    );
}
