# Soroban AMM

A constant-product automated market maker (`x * y = k`) for the Stellar network, verified with
Verus.

- `src/` is the library. Its operations take the storage of a contract as a plain value and decide
  what becomes of it; their contracts say exactly what they return, and exactly when they refuse.
  - `pool.rs`: the pool (`initialize`, `add_liquidity`, `remove_liquidity`, `swap`, quotes)
  - `state.rs`, `curve.rs`, `arith.rs`: the storage of a pool and the formulas over it
  - `token.rs`, `ledger.rs`: the LP token, which stands for shares in a pool
  - `pool_laws.rs`, `token_laws.rs`, `market_laws.rs`: what follows for every pool and every token
- `app/` is the pair of Soroban contracts around it. They read and write storage, ask the host for
  authorization, call the tokens and publish events.
- `tests/` runs the library on concrete values.

## Formulas

```
amount_in_with_fee = amount_in * (10_000 - fee_bps)
amount_out         = amount_in_with_fee * reserve_out
                   / (reserve_in * 10_000 + amount_in_with_fee)

first shares       = sqrt(amount_a * amount_b)
later shares       = min(amount_a * total_shares / reserve_a,
                         amount_b * total_shares / reserve_b)

amounts withdrawn  = shares * reserve / total_shares
```

All of them are computed in `i128`, and a step that does not fit is refused.
