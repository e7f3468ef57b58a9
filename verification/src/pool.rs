//! The pool as it is stored, in 64-bit words, and the operations that change it.
//!
//! Every operation is one all-or-nothing transition: it validates, computes the new state
//! and hands back the record of what moved, or it refuses and leaves the pool as it was.
//! Moving the assets themselves is the caller's part; the record names the amounts.

use crate::error::ErrorCode;
use crate::events::{AddLiquidityEvent, FeeDistributedEvent, RemoveLiquidityEvent, SwapEvent};
use crate::laws::lemma_swap_product_non_decreasing;
use crate::model::{lemma_remove_liquidity_wf, lemma_swap_wf, PoolState};
use crate::pricing::{lemma_fee_bounds, quote_swap, FEE_SCALE};
use vstd::prelude::*;

verus! {

/// A two-asset liquidity pool.
#[derive(Clone, Copy, Debug, PartialEq, Eq, Structural)]
pub struct Amm {
    /// Asset A held for trading.
    pub token_a_reserve: u64,
    /// Asset B held for trading.
    pub token_b_reserve: u64,
    /// Fee rate in parts per thousand.
    pub fee: u64,
    /// Ownership units outstanding.
    pub total_shares: u64,
    /// Fees owed to the protocol, in asset A.
    pub accumulated_fees_a: u64,
    /// Fees owed to the protocol, in asset B.
    pub accumulated_fees_b: u64,
    /// While set, trades are refused.
    pub paused: bool,
}

impl View for Amm {
    type V = PoolState;

    open spec fn view(&self) -> PoolState {
        PoolState {
            reserve_a: self.token_a_reserve as nat,
            reserve_b: self.token_b_reserve as nat,
            fee_rate: self.fee as nat,
            total_shares: self.total_shares as nat,
            accrued_fee_a: self.accumulated_fees_a as nat,
            accrued_fee_b: self.accumulated_fees_b as nat,
            paused: self.paused,
        }
    }
}

impl Amm {
    /// The stored pool is well formed when the pool it stands for is.
    pub open spec fn wf(&self) -> bool {
        self@.wf()
    }

    /// Tests the invariant that every operation expects and keeps, for a pool that was
    /// loaded from storage rather than built here.
    pub fn is_well_formed(&self) -> (ok: bool)
        ensures
            ok == self.wf(),
    {
        let empty = self.total_shares == 0;
        self.fee < FEE_SCALE && (self.token_a_reserve == 0) == empty && (self.token_b_reserve
            == 0) == empty
    }
}

/// Creates a pool: empty, nothing accrued, trading open. A fee rate of 100% or more is
/// refused.
pub fn initialize(fee: u64) -> (result: Result<Amm, ErrorCode>)
    ensures
        match result {
            Ok(amm) => fee < FEE_SCALE && amm@ == PoolState::initial(fee as nat) && amm.wf(),
            Err(e) => fee >= FEE_SCALE && e == ErrorCode::InvalidInput,
        },
{
    if fee >= FEE_SCALE {
        return Err(ErrorCode::InvalidInput);
    }
    Ok(
        Amm {
            token_a_reserve: 0,
            token_b_reserve: 0,
            fee,
            total_shares: 0,
            accumulated_fees_a: 0,
            accumulated_fees_b: 0,
            paused: false,
        },
    )
}

/// Deposits `amount_a` of asset A and `amount_b` of asset B and mints shares for them.
///
/// On success the caller moves both amounts in full from the depositor into the pool, also
/// where the pair is out of proportion and the shares are minted for the scarcer side only.
pub fn add_liquidity(
    amm: &mut Amm,
    user: [u8; 32],
    amount_a: u64,
    amount_b: u64,
) -> (result: Result<AddLiquidityEvent, ErrorCode>)
    requires
        old(amm).wf(),
    ensures
        final(amm).wf(),
        match result {
            Ok(event) => {
                &&& old(amm)@.add_liquidity_refusal(amount_a as nat, amount_b as nat) is None
                &&& final(amm)@ == old(amm)@.add_liquidity(amount_a as nat, amount_b as nat)
                &&& event.user == user
                &&& event.amount_a == amount_a
                &&& event.amount_b == amount_b
                &&& event.shares == old(amm)@.shares_minted(amount_a as nat, amount_b as nat)
            },
            Err(e) => {
                &&& old(amm)@.add_liquidity_refusal(amount_a as nat, amount_b as nat) == Some(e)
                &&& *final(amm) == *old(amm)
            },
        },
{
    if amount_a == 0 || amount_b == 0 {
        return Err(ErrorCode::InvalidInput);
    }
    let minted: u128 = if amm.total_shares == 0 {
        amount_a as u128 + amount_b as u128
    } else {
        proof {
            lemma_product_fits(amount_a, amm.total_shares);
            lemma_product_fits(amount_b, amm.total_shares);
        }
        let share_a = (amount_a as u128) * (amm.total_shares as u128) / (amm.token_a_reserve
            as u128);
        let share_b = (amount_b as u128) * (amm.total_shares as u128) / (amm.token_b_reserve
            as u128);
        if share_a <= share_b {
            share_a
        } else {
            share_b
        }
    };
    if amount_a > u64::MAX - amm.token_a_reserve || amount_b > u64::MAX - amm.token_b_reserve
        || minted > (u64::MAX - amm.total_shares) as u128 {
        return Err(ErrorCode::InvalidInput);
    }
    let shares = minted as u64;
    amm.token_a_reserve = amm.token_a_reserve + amount_a;
    amm.token_b_reserve = amm.token_b_reserve + amount_b;
    amm.total_shares = amm.total_shares + shares;
    Ok(AddLiquidityEvent { user, amount_a, amount_b, shares })
}

/// Trades `amount_in` of one asset for the other, asset A for asset B when `from_a_to_b`.
///
/// On success the caller moves `amount_in` from the trader into the pool and `amount_out`
/// from the pool to the trader; both stand in the record. The product of the reserves never
/// shrinks. While the pool is paused every trade is refused.
pub fn swap(
    amm: &mut Amm,
    user: [u8; 32],
    amount_in: u64,
    from_a_to_b: bool,
    minimum_output: u64,
) -> (result: Result<SwapEvent, ErrorCode>)
    requires
        old(amm).wf(),
    ensures
        final(amm).wf(),
        old(amm).paused ==> result == Err::<SwapEvent, ErrorCode>(ErrorCode::ContractPaused)
            && *final(amm) == *old(amm),
        final(amm).token_a_reserve * final(amm).token_b_reserve >= old(amm).token_a_reserve
            * old(amm).token_b_reserve,
        match result {
            Ok(event) => {
                &&& old(amm)@.swap_refusal(amount_in as nat, from_a_to_b, minimum_output as nat)
                    is None
                &&& final(amm)@ == old(amm)@.swap(amount_in as nat, from_a_to_b)
                &&& event.user == user
                &&& event.amount_in == amount_in
                &&& event.amount_out == old(amm)@.swap_output(amount_in as nat, from_a_to_b)
                &&& event.amount_out < old(amm)@.reserve_out(from_a_to_b)
                &&& event.from_a_to_b == from_a_to_b
            },
            Err(e) => {
                &&& old(amm)@.swap_refusal(amount_in as nat, from_a_to_b, minimum_output as nat)
                    == Some(e)
                &&& *final(amm) == *old(amm)
            },
        },
{
    if amm.paused {
        return Err(ErrorCode::ContractPaused);
    }
    let reserve_in = if from_a_to_b { amm.token_a_reserve } else { amm.token_b_reserve };
    let reserve_out = if from_a_to_b { amm.token_b_reserve } else { amm.token_a_reserve };
    let accrued = if from_a_to_b { amm.accumulated_fees_b } else { amm.accumulated_fees_a };
    let (amount_out, fee_amount) = match quote_swap(amount_in, reserve_in, reserve_out, amm.fee) {
        Ok(quote) => quote,
        Err(e) => {
            return Err(e);
        },
    };
    if amount_out < minimum_output {
        return Err(ErrorCode::SlippageExceeded);
    }
    proof {
        lemma_fee_bounds(amount_in as nat, amm.fee as nat);
        lemma_swap_wf(amm@, amount_in as nat, from_a_to_b);
        lemma_swap_product_non_decreasing(amm@, amount_in as nat, from_a_to_b);
    }
    let effective = amount_in - fee_amount;
    if effective > u64::MAX - reserve_in || fee_amount > u64::MAX - accrued {
        return Err(ErrorCode::InvalidInput);
    }
    if from_a_to_b {
        amm.token_a_reserve = reserve_in + effective;
        amm.token_b_reserve = reserve_out - amount_out;
        amm.accumulated_fees_b = accrued + fee_amount;
    } else {
        amm.token_b_reserve = reserve_in + effective;
        amm.token_a_reserve = reserve_out - amount_out;
        amm.accumulated_fees_a = accrued + fee_amount;
    }
    Ok(SwapEvent { user, amount_in, amount_out, from_a_to_b })
}

/// Burns `shares` and pays out their part of both reserves, rounded down.
///
/// On success the caller moves the two amounts in the record from the pool to the withdrawer.
pub fn remove_liquidity(
    amm: &mut Amm,
    user: [u8; 32],
    shares: u64,
) -> (result: Result<RemoveLiquidityEvent, ErrorCode>)
    requires
        old(amm).wf(),
    ensures
        final(amm).wf(),
        match result {
            Ok(event) => {
                &&& old(amm)@.remove_liquidity_refusal(shares as nat) is None
                &&& final(amm)@ == old(amm)@.remove_liquidity(shares as nat)
                &&& event.user == user
                &&& event.amount_a == old(amm)@.withdrawal_a(shares as nat)
                &&& event.amount_b == old(amm)@.withdrawal_b(shares as nat)
                &&& event.amount_a <= old(amm).token_a_reserve
                &&& event.amount_b <= old(amm).token_b_reserve
                &&& event.shares == shares
            },
            Err(e) => {
                &&& old(amm)@.remove_liquidity_refusal(shares as nat) == Some(e)
                &&& *final(amm) == *old(amm)
            },
        },
{
    if shares == 0 || shares > amm.total_shares {
        return Err(ErrorCode::InvalidInput);
    }
    proof {
        lemma_remove_liquidity_wf(amm@, shares as nat);
        lemma_product_fits(shares, amm.token_a_reserve);
        lemma_product_fits(shares, amm.token_b_reserve);
    }
    let amount_a = ((shares as u128) * (amm.token_a_reserve as u128) / (amm.total_shares
        as u128)) as u64;
    let amount_b = ((shares as u128) * (amm.token_b_reserve as u128) / (amm.total_shares
        as u128)) as u64;
    amm.token_a_reserve = amm.token_a_reserve - amount_a;
    amm.token_b_reserve = amm.token_b_reserve - amount_b;
    amm.total_shares = amm.total_shares - shares;
    Ok(RemoveLiquidityEvent { user, amount_a, amount_b, shares })
}

/// Pays out the accrued fees: the record names what was accrued, and both accumulators start
/// again from zero. Reserves and shares are not touched.
///
/// The caller has established that `user` may collect the fees, and says so with
/// `authorized`; the pool itself knows no roles. The caller then moves the two amounts in
/// the record from the pool's fee accounts to the fee receiver.
#[allow(unused_variables)]
pub fn distribute_fees(
    amm: &mut Amm,
    user: [u8; 32],
    authorized: bool,
) -> (event: FeeDistributedEvent)
    requires
        authorized,
        old(amm).wf(),
    ensures
        final(amm).wf(),
        final(amm)@ == old(amm)@.distribute_fees(),
        event.user == user,
        event.amount_a == old(amm).accumulated_fees_a,
        event.amount_b == old(amm).accumulated_fees_b,
{
    let event = FeeDistributedEvent {
        user,
        amount_a: amm.accumulated_fees_a,
        amount_b: amm.accumulated_fees_b,
    };
    amm.accumulated_fees_a = 0;
    amm.accumulated_fees_b = 0;
    event
}

/// Suspends trading, or resumes it.
///
/// The caller has established that the request comes from the pool's administrator, and says
/// so with `authorized`; the pool itself knows no roles.
#[allow(unused_variables)]
pub fn pause_contract(amm: &mut Amm, authorized: bool, paused: bool)
    requires
        authorized,
        old(amm).wf(),
    ensures
        final(amm).wf(),
        final(amm)@ == old(amm)@.set_paused(paused),
{
    amm.paused = paused;
}

/// The product of two 64-bit words fits in 128 bits.
proof fn lemma_product_fits(x: u64, y: u64)
    ensures
        (x as nat) * (y as nat) <= u128::MAX,
        (x as u128) * (y as u128) == (x as nat) * (y as nat),
{
    assert((x as nat) * (y as nat) <= 0xffff_ffff_ffff_ffff * 0xffff_ffff_ffff_ffff)
        by (nonlinear_arith)
        requires
            x <= 0xffff_ffff_ffff_ffff,
            y <= 0xffff_ffff_ffff_ffff,
    ;
}

} // verus!
