//! What holds of the pool whatever the amounts: every operation keeps it empty or fully
//! funded, a trade never shrinks the product of the reserves, a larger trade never pays out
//! less, and a deposit withdrawn again returns no more than was put in.

use crate::division::{
    lemma_floor_bounds, lemma_quotient_at_least, lemma_quotient_below,
    lemma_quotient_cross_monotone,
};
use crate::model::{lemma_remove_liquidity_wf, lemma_swap_wf, PoolState};
use crate::pricing::{amount_out, effective_input, fee_amount, lemma_fee_bounds, FEE_SCALE};
use vstd::prelude::*;

verus! {

/// The pool's invariant survives every operation: a fresh pool is well formed, and each
/// operation that is not refused takes a well-formed pool to a well-formed pool. In
/// particular no share is outstanding exactly when both reserves are empty.
pub proof fn lemma_operations_keep_invariant(
    s: PoolState,
    fee_rate: nat,
    amount_a: nat,
    amount_b: nat,
    amount_in: nat,
    from_a_to_b: bool,
    minimum_output: nat,
    shares: nat,
    paused: bool,
)
    requires
        s.wf(),
    ensures
        s.total_shares == 0 <==> s.reserve_a == 0 && s.reserve_b == 0,
        fee_rate < FEE_SCALE ==> PoolState::initial(fee_rate).wf(),
        s.add_liquidity_refusal(amount_a, amount_b) is None ==> s.add_liquidity(
            amount_a,
            amount_b,
        ).wf(),
        s.swap_refusal(amount_in, from_a_to_b, minimum_output) is None ==> s.swap(
            amount_in,
            from_a_to_b,
        ).wf(),
        s.remove_liquidity_refusal(shares) is None ==> s.remove_liquidity(shares).wf(),
        s.distribute_fees().wf(),
        s.set_paused(paused).wf(),
{
    if s.swap_refusal(amount_in, from_a_to_b, minimum_output) is None {
        lemma_swap_wf(s, amount_in, from_a_to_b);
    }
    if s.remove_liquidity_refusal(shares) is None {
        lemma_remove_liquidity_wf(s, shares);
    }
}

/// Taking the fee keeps the order of amounts: of two inputs, the larger one leaves at least
/// as much after the fee.
pub proof fn lemma_effective_input_monotonic(smaller: nat, larger: nat, fee_rate: nat)
    requires
        smaller <= larger,
        fee_rate < FEE_SCALE,
    ensures
        effective_input(smaller, fee_rate) <= effective_input(larger, fee_rate),
{
    let fee_small = fee_amount(smaller, fee_rate);
    let fee_large = fee_amount(larger, fee_rate);
    lemma_fee_bounds(smaller, fee_rate);
    lemma_fee_bounds(larger, fee_rate);
    lemma_floor_bounds(smaller * fee_rate, 1000);
    lemma_floor_bounds(larger * fee_rate, 1000);
    assert(fee_large - fee_small <= larger - smaller) by (nonlinear_arith)
        requires
            smaller <= larger,
            fee_rate < 1000,
            fee_large * 1000 <= larger * fee_rate,
            smaller * fee_rate < (fee_small + 1) * 1000,
    ;
}

/// A quote is monotonic in the amount paid in: against the same reserves and at the same
/// fee rate, increasing `amount_in` never decreases the payout.
pub proof fn lemma_quote_monotonic(
    smaller: nat,
    larger: nat,
    reserve_in: nat,
    reserve_out: nat,
    fee_rate: nat,
)
    requires
        smaller <= larger,
        reserve_in > 0,
        fee_rate < FEE_SCALE,
    ensures
        amount_out(smaller, reserve_in, reserve_out, fee_rate) <= amount_out(
            larger,
            reserve_in,
            reserve_out,
            fee_rate,
        ),
{
    let e1 = effective_input(smaller, fee_rate);
    let e2 = effective_input(larger, fee_rate);
    lemma_effective_input_monotonic(smaller, larger, fee_rate);
    assert((e1 * reserve_out) * (reserve_in + e2) <= (e2 * reserve_out) * (reserve_in + e1))
        by (nonlinear_arith)
        requires
            e1 <= e2,
    ;
    lemma_quotient_cross_monotone(
        e1 * reserve_out,
        reserve_in + e1,
        e2 * reserve_out,
        reserve_in + e2,
    );
}

/// The constant-product rule: across a trade against a funded pool the product of the two
/// reserves never decreases.
pub proof fn lemma_swap_product_non_decreasing(s: PoolState, amount_in: nat, from_a_to_b: bool)
    requires
        s.wf(),
        s.total_shares > 0,
    ensures
        s.swap(amount_in, from_a_to_b).reserve_a * s.swap(amount_in, from_a_to_b).reserve_b
            >= s.reserve_a * s.reserve_b,
{
    let reserve_in = s.reserve_in(from_a_to_b);
    let reserve_out = s.reserve_out(from_a_to_b);
    let effective = effective_input(amount_in, s.fee_rate);
    let out = s.swap_output(amount_in, from_a_to_b);
    lemma_floor_bounds(effective * reserve_out, reserve_in + effective);
    assert((reserve_in + effective) * (reserve_out - out) >= reserve_in * reserve_out)
        by (nonlinear_arith)
        requires
            out * (reserve_in + effective) <= effective * reserve_out,
    ;
    assert(out <= reserve_out) by (nonlinear_arith)
        requires
            out * (reserve_in + effective) <= effective * reserve_out,
            reserve_in > 0,
            reserve_out > 0,
    ;
    let after = s.swap(amount_in, from_a_to_b);
    if from_a_to_b {
        assert(after.reserve_a * after.reserve_b == (reserve_in + effective) * (reserve_out - out));
    } else {
        assert(after.reserve_a * after.reserve_b == (reserve_in + effective) * (reserve_out - out))
            by (nonlinear_arith)
            requires
                after.reserve_b == reserve_in + effective,
                after.reserve_a == reserve_out - out,
        ;
        assert(s.reserve_a * s.reserve_b == reserve_in * reserve_out) by (nonlinear_arith)
            requires
                s.reserve_b == reserve_in,
                s.reserve_a == reserve_out,
        ;
    }
}

/// A deposit that is withdrawn again, by burning exactly the shares it minted and with no
/// trade in between, returns of each asset no more than was deposited. Into an empty pool
/// nothing is lost to rounding and the deposit comes back in full.
pub proof fn lemma_deposit_then_withdraw(s: PoolState, amount_a: nat, amount_b: nat)
    requires
        s.wf(),
        amount_a > 0,
        amount_b > 0,
    ensures
        ({
            let minted = s.shares_minted(amount_a, amount_b);
            let funded = s.add_liquidity(amount_a, amount_b);
            &&& funded.withdrawal_a(minted) <= amount_a
            &&& funded.withdrawal_b(minted) <= amount_b
            &&& s.total_shares == 0 ==> funded.withdrawal_a(minted) == amount_a
                && funded.withdrawal_b(minted) == amount_b
        }),
{
    let minted = s.shares_minted(amount_a, amount_b);
    let funded = s.add_liquidity(amount_a, amount_b);
    if s.total_shares == 0 {
        lemma_whole_supply_withdraws_all(amount_a, minted);
        lemma_whole_supply_withdraws_all(amount_b, minted);
    } else {
        let share_a = amount_a * s.total_shares / s.reserve_a;
        let share_b = amount_b * s.total_shares / s.reserve_b;
        lemma_floor_bounds(amount_a * s.total_shares, s.reserve_a);
        lemma_floor_bounds(amount_b * s.total_shares, s.reserve_b);
        assert(minted * s.reserve_a <= amount_a * s.total_shares) by (nonlinear_arith)
            requires
                minted <= share_a,
                share_a * s.reserve_a <= amount_a * s.total_shares,
        ;
        assert(minted * s.reserve_b <= amount_b * s.total_shares) by (nonlinear_arith)
            requires
                minted <= share_b,
                share_b * s.reserve_b <= amount_b * s.total_shares,
        ;
        lemma_proportional_withdrawal(minted, amount_a, s.reserve_a, s.total_shares);
        lemma_proportional_withdrawal(minted, amount_b, s.reserve_b, s.total_shares);
    }
}

/// Burning every share pays out the whole reserve.
proof fn lemma_whole_supply_withdraws_all(reserve: nat, total: nat)
    requires
        total > 0,
    ensures
        total * reserve / total == reserve,
{
    assert(reserve * total <= total * reserve && total * reserve < (reserve + 1) * total)
        by (nonlinear_arith)
        requires
            total > 0,
    ;
    lemma_quotient_at_least(total * reserve, total, reserve);
    lemma_floor_bounds(total * reserve, total);
    assert(total * reserve / total < reserve + 1) by (nonlinear_arith)
        requires
            total > 0,
            (total * reserve / total) * total <= total * reserve,
            total * reserve < (reserve + 1) * total,
    ;
}

/// Shares minted at no more than the going rate, `minted * reserve <= amount * total`, buy
/// back no more than `amount` from the pool they were minted into.
proof fn lemma_proportional_withdrawal(minted: nat, amount: nat, reserve: nat, total: nat)
    requires
        total > 0,
        reserve > 0,
        minted * reserve <= amount * total,
    ensures
        minted * (reserve + amount) / (total + minted) <= amount,
{
    assert(minted * (reserve + amount) < (amount + 1) * (total + minted)) by (nonlinear_arith)
        requires
            total > 0,
            minted * reserve <= amount * total,
    ;
    lemma_quotient_below(minted * (reserve + amount), total + minted, amount + 1);
}

} // verus!
