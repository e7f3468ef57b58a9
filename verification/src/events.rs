//! The records a pool operation hands back for publication.
//!
//! Each record names the caller and the quantities that the operation moved. The ledger that
//! holds the assets reads the amounts to move from the same record.

use vstd::prelude::*;

verus! {

/// A trade: `amount_in` was paid into the pool and `amount_out` paid out of it.
#[derive(Clone, Copy, Debug, PartialEq, Eq)]
pub struct SwapEvent {
    /// The trader's public key.
    pub user: [u8; 32],
    /// What the trader pays, fee included.
    pub amount_in: u64,
    /// What the trader receives.
    pub amount_out: u64,
    /// `true` when asset A is paid in and asset B paid out.
    pub from_a_to_b: bool,
}

/// A deposit of both assets, and the shares minted for it.
#[derive(Clone, Copy, Debug, PartialEq, Eq)]
pub struct AddLiquidityEvent {
    /// The depositor's public key.
    pub user: [u8; 32],
    /// Asset A moved into the pool.
    pub amount_a: u64,
    /// Asset B moved into the pool.
    pub amount_b: u64,
    /// Shares minted to the depositor.
    pub shares: u64,
}

/// A withdrawal of both assets against burned shares.
#[derive(Clone, Copy, Debug, PartialEq, Eq)]
pub struct RemoveLiquidityEvent {
    /// The withdrawer's public key.
    pub user: [u8; 32],
    /// Asset A moved out of the pool.
    pub amount_a: u64,
    /// Asset B moved out of the pool.
    pub amount_b: u64,
    /// Shares burned.
    pub shares: u64,
}

/// A payout of the accrued fees.
#[derive(Clone, Copy, Debug, PartialEq, Eq)]
pub struct FeeDistributedEvent {
    /// The public key of the caller who asked for the payout.
    pub user: [u8; 32],
    /// Fees in asset A that were paid out.
    pub amount_a: u64,
    /// Fees in asset B that were paid out.
    pub amount_b: u64,
}

} // verus!
