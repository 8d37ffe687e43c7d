//! Constant-product automated market maker (`x * y = k`) with a token for its liquidity shares.
//!
//! [`pool`] is the pool contract: it takes deposits of two tokens against shares, pays shares out
//! again, and swaps the one token for the other. [`token`] is the contract of the token that stands
//! for the shares. Both are plain values: an operation reads the storage of its contract, and either
//! refuses, with everything left as it was, or changes the storage and returns what is to be done
//! outside: the token calls to make, in order, and the event to publish.
//!
//! [`curve`] and [`state`] say what the pool's formulas come to. [`exact_pool_laws`] and
//! [`exact_token_laws`] prove, as relations between numbers, when each operation succeeds and what
//! it then gives. [`pool_laws`], [`token_laws`] and [`market_laws`] prove what holds of the pool, of
//! the token, and of both together.

pub mod address;
pub mod arith;
pub mod curve;
pub mod error;
pub mod exact_pool_laws;
pub mod exact_token_laws;
pub mod ledger;
pub mod market_laws;
pub mod pool;
pub mod pool_laws;
pub mod state;
pub mod token;
pub mod token_laws;
