//! Accounting core of a two-asset constant-product liquidity pool.
//!
//! The pool mints and burns shares against deposits and withdrawals, prices trades on the
//! curve `reserve_a * reserve_b = const`, and books protocol fees apart from the reserves.
//! All of it is integer arithmetic on 64-bit quantities with 128-bit intermediates.
//!
//! * [`pricing`] quotes a trade.
//! * [`model`] states each operation on unbounded numbers.
//! * [`pool`] holds the stored pool and the operations on it.
//! * [`events`] and [`error`] are what an operation hands back.
//! * [`laws`] proves what the pool keeps whatever the amounts.
//! * [`division`] holds the facts about rounding that the proofs rest on.

pub mod division;
pub mod error;
pub mod events;
pub mod laws;
pub mod model;
pub mod pool;
pub mod pricing;

pub use error::ErrorCode;
pub use events::{AddLiquidityEvent, FeeDistributedEvent, RemoveLiquidityEvent, SwapEvent};
pub use pool::{
    add_liquidity, distribute_fees, initialize, pause_contract, remove_liquidity, swap, Amm,
};
pub use pricing::{quote_swap, FEE_SCALE};
