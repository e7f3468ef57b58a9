//! Constant-product pricing: what a trade pays out and what it costs in fees.
//!
//! A trade of `amount_in` against reserves `(reserve_in, reserve_out)` first pays the fee,
//! `amount_in * fee_rate / 1000` rounded down. What is left, the effective input, moves along
//! the curve `reserve_in * reserve_out = const`, and the payout is rounded down, so the
//! product of the reserves never shrinks.

use crate::division::lemma_quotient_below;
use crate::error::ErrorCode;
use vstd::prelude::*;

verus! {

/// Fee rates are given in parts per thousand; a rate must stay below this.
pub const FEE_SCALE: u64 = 1000;

/// The fee charged on `amount_in`, rounded down.
pub open spec fn fee_amount(amount_in: nat, fee_rate: nat) -> nat {
    amount_in * fee_rate / (FEE_SCALE as nat)
}

/// What is left of `amount_in` once the fee is taken.
pub open spec fn effective_input(amount_in: nat, fee_rate: nat) -> nat {
    (amount_in - fee_amount(amount_in, fee_rate)) as nat
}

/// The payout of the constant-product curve for the fee-adjusted input, rounded down.
pub open spec fn amount_out(
    amount_in: nat,
    reserve_in: nat,
    reserve_out: nat,
    fee_rate: nat,
) -> nat {
    let effective = effective_input(amount_in, fee_rate);
    effective * reserve_out / (reserve_in + effective)
}

/// Why a quote is refused, if it is: a zero amount or a fee rate of 100% or more is invalid
/// input; otherwise an empty reserve leaves nothing to divide by.
pub open spec fn quote_refusal(
    amount_in: nat,
    reserve_in: nat,
    reserve_out: nat,
    fee_rate: nat,
) -> Option<ErrorCode> {
    if amount_in == 0 || fee_rate >= FEE_SCALE {
        Some(ErrorCode::InvalidInput)
    } else if reserve_in == 0 || reserve_out == 0 {
        Some(ErrorCode::DivisionByZero)
    } else {
        None
    }
}

/// With a rate below 100% the fee never exceeds the amount, and leaves something of a
/// positive amount.
pub proof fn lemma_fee_bounds(amount_in: nat, fee_rate: nat)
    requires
        fee_rate < FEE_SCALE,
    ensures
        fee_amount(amount_in, fee_rate) <= amount_in,
        amount_in > 0 ==> fee_amount(amount_in, fee_rate) < amount_in,
        effective_input(amount_in, fee_rate) + fee_amount(amount_in, fee_rate) == amount_in,
{
    assert(amount_in * fee_rate <= amount_in * 1000 && (amount_in > 0 ==> amount_in * fee_rate
        < amount_in * 1000)) by (nonlinear_arith)
        requires
            fee_rate < 1000,
    ;
    if amount_in > 0 {
        lemma_quotient_below(amount_in * fee_rate, 1000, amount_in);
    }
}

/// A trade never drains the reserve it pays from: the payout is strictly below `reserve_out`.
pub proof fn lemma_amount_out_below_reserve(
    amount_in: nat,
    reserve_in: nat,
    reserve_out: nat,
    fee_rate: nat,
)
    requires
        reserve_in > 0,
        reserve_out > 0,
    ensures
        amount_out(amount_in, reserve_in, reserve_out, fee_rate) < reserve_out,
{
    let effective = effective_input(amount_in, fee_rate);
    assert(effective * reserve_out < reserve_out * (reserve_in + effective)) by (nonlinear_arith)
        requires
            reserve_in > 0,
            reserve_out > 0,
    ;
    lemma_quotient_below(effective * reserve_out, reserve_in + effective, reserve_out);
}

/// Quotes a trade: the payout and the fee, in that order.
///
/// The quote is refused exactly when [`quote_refusal`] names a reason. All products are taken
/// in 128 bits, so no input overflows.
pub fn quote_swap(
    amount_in: u64,
    reserve_in: u64,
    reserve_out: u64,
    fee_rate: u64,
) -> (result: Result<(u64, u64), ErrorCode>)
    ensures
        match result {
            Ok((out, fee)) => {
                &&& quote_refusal(
                    amount_in as nat,
                    reserve_in as nat,
                    reserve_out as nat,
                    fee_rate as nat,
                ) is None
                &&& fee == fee_amount(amount_in as nat, fee_rate as nat)
                &&& out == amount_out(
                    amount_in as nat,
                    reserve_in as nat,
                    reserve_out as nat,
                    fee_rate as nat,
                )
                &&& fee < amount_in
                &&& out < reserve_out
            },
            Err(e) => quote_refusal(
                amount_in as nat,
                reserve_in as nat,
                reserve_out as nat,
                fee_rate as nat,
            ) == Some(e),
        },
{
    if amount_in == 0 || fee_rate >= FEE_SCALE {
        return Err(ErrorCode::InvalidInput);
    }
    if reserve_in == 0 || reserve_out == 0 {
        return Err(ErrorCode::DivisionByZero);
    }
    proof {
        lemma_fee_bounds(amount_in as nat, fee_rate as nat);
        lemma_amount_out_below_reserve(
            amount_in as nat,
            reserve_in as nat,
            reserve_out as nat,
            fee_rate as nat,
        );
        assert((amount_in as nat) * (fee_rate as nat) <= 0xffff_ffff_ffff_ffff * 1000)
            by (nonlinear_arith)
            requires
                amount_in <= 0xffff_ffff_ffff_ffff,
                fee_rate < 1000,
        ;
    }
    let fee: u128 = (amount_in as u128) * (fee_rate as u128) / (FEE_SCALE as u128);
    let effective: u128 = amount_in as u128 - fee;
    proof {
        assert((effective as nat) * (reserve_out as nat) <= 0xffff_ffff_ffff_ffff
            * 0xffff_ffff_ffff_ffff) by (nonlinear_arith)
            requires
                effective <= 0xffff_ffff_ffff_ffff,
                reserve_out <= 0xffff_ffff_ffff_ffff,
        ;
    }
    let out: u128 = effective * (reserve_out as u128) / (reserve_in as u128 + effective);
    Ok((out as u64, fee as u64))
}

} // verus!
