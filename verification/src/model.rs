//! The pool as a mathematical object: unbounded quantities and the transitions between them.
//!
//! Every operation of the pool is stated here as a function on [`PoolState`], free of machine
//! limits. The executable operations are held to these functions, and refuse whatever would
//! leave the 64-bit range.

use crate::division::{lemma_floor_bounds, lemma_quotient_at_least, lemma_quotient_below};
use crate::error::ErrorCode;
use crate::pricing::{
    amount_out, effective_input, fee_amount, lemma_amount_out_below_reserve, lemma_fee_bounds,
    quote_refusal, FEE_SCALE,
};
use vstd::prelude::*;

verus! {

/// What a pool holds, as natural numbers.
pub struct PoolState {
    /// Asset A held for trading.
    pub reserve_a: nat,
    /// Asset B held for trading.
    pub reserve_b: nat,
    /// Fee rate in parts per thousand.
    pub fee_rate: nat,
    /// Ownership units outstanding.
    pub total_shares: nat,
    /// Fees owed to the protocol, in asset A.
    pub accrued_fee_a: nat,
    /// Fees owed to the protocol, in asset B.
    pub accrued_fee_b: nat,
    /// While set, trades are refused.
    pub paused: bool,
}

impl PoolState {
    /// A pool is empty or fully funded: each reserve is zero exactly when no share is
    /// outstanding. The fee rate is below 100%.
    pub open spec fn wf(self) -> bool {
        &&& self.fee_rate < FEE_SCALE
        &&& (self.reserve_a == 0 <==> self.total_shares == 0)
        &&& (self.reserve_b == 0 <==> self.total_shares == 0)
    }

    /// Every quantity fits in 64 bits.
    pub open spec fn representable(self) -> bool {
        &&& self.reserve_a <= u64::MAX
        &&& self.reserve_b <= u64::MAX
        &&& self.fee_rate <= u64::MAX
        &&& self.total_shares <= u64::MAX
        &&& self.accrued_fee_a <= u64::MAX
        &&& self.accrued_fee_b <= u64::MAX
    }

    /// The pool right after its creation: empty, nothing accrued, trading open.
    pub open spec fn initial(fee_rate: nat) -> PoolState {
        PoolState {
            reserve_a: 0,
            reserve_b: 0,
            fee_rate,
            total_shares: 0,
            accrued_fee_a: 0,
            accrued_fee_b: 0,
            paused: false,
        }
    }

    /// Shares minted for a deposit. The first deposit mints the sum of both amounts. A later
    /// one mints in proportion to the scarcer side: the smaller of
    /// `amount_a * total_shares / reserve_a` and `amount_b * total_shares / reserve_b`.
    pub open spec fn shares_minted(self, amount_a: nat, amount_b: nat) -> nat {
        if self.total_shares == 0 {
            amount_a + amount_b
        } else {
            let share_a = amount_a * self.total_shares / self.reserve_a;
            let share_b = amount_b * self.total_shares / self.reserve_b;
            if share_a <= share_b {
                share_a
            } else {
                share_b
            }
        }
    }

    /// The pool after a deposit: both amounts join the reserves in full.
    pub open spec fn add_liquidity(self, amount_a: nat, amount_b: nat) -> PoolState {
        PoolState {
            reserve_a: self.reserve_a + amount_a,
            reserve_b: self.reserve_b + amount_b,
            total_shares: self.total_shares + self.shares_minted(amount_a, amount_b),
            ..self
        }
    }

    /// Why a deposit is refused, if it is: an amount is zero, or a reserve or the share supply
    /// would leave the 64-bit range.
    pub open spec fn add_liquidity_refusal(
        self,
        amount_a: nat,
        amount_b: nat,
    ) -> Option<ErrorCode> {
        if amount_a == 0 || amount_b == 0 {
            Some(ErrorCode::InvalidInput)
        } else if !self.add_liquidity(amount_a, amount_b).representable() {
            Some(ErrorCode::InvalidInput)
        } else {
            None
        }
    }

    /// Asset A paid out for burning `shares`: `shares * reserve_a / total_shares`, rounded down.
    pub open spec fn withdrawal_a(self, shares: nat) -> nat {
        shares * self.reserve_a / self.total_shares
    }

    /// Asset B paid out for burning `shares`: `shares * reserve_b / total_shares`, rounded down.
    pub open spec fn withdrawal_b(self, shares: nat) -> nat {
        shares * self.reserve_b / self.total_shares
    }

    /// The pool after `shares` are burned and their part of both reserves is paid out.
    pub open spec fn remove_liquidity(self, shares: nat) -> PoolState {
        PoolState {
            reserve_a: (self.reserve_a - self.withdrawal_a(shares)) as nat,
            reserve_b: (self.reserve_b - self.withdrawal_b(shares)) as nat,
            total_shares: (self.total_shares - shares) as nat,
            ..self
        }
    }

    /// Why a withdrawal is refused, if it is: no share is burned, or more than are outstanding.
    pub open spec fn remove_liquidity_refusal(self, shares: nat) -> Option<ErrorCode> {
        if shares == 0 || shares > self.total_shares {
            Some(ErrorCode::InvalidInput)
        } else {
            None
        }
    }

    /// The reserve that a trade pays into.
    pub open spec fn reserve_in(self, from_a_to_b: bool) -> nat {
        if from_a_to_b {
            self.reserve_a
        } else {
            self.reserve_b
        }
    }

    /// The reserve that a trade is paid from.
    pub open spec fn reserve_out(self, from_a_to_b: bool) -> nat {
        if from_a_to_b {
            self.reserve_b
        } else {
            self.reserve_a
        }
    }

    /// What a trade of `amount_in` pays out.
    pub open spec fn swap_output(self, amount_in: nat, from_a_to_b: bool) -> nat {
        amount_out(
            amount_in,
            self.reserve_in(from_a_to_b),
            self.reserve_out(from_a_to_b),
            self.fee_rate,
        )
    }

    /// The pool after a trade. The input less the fee joins the paying side's reserve, the
    /// payout leaves the other reserve, and the fee is booked on the accumulator of the asset
    /// that is paid out.
    pub open spec fn swap(self, amount_in: nat, from_a_to_b: bool) -> PoolState {
        let effective = effective_input(amount_in, self.fee_rate);
        let fee = fee_amount(amount_in, self.fee_rate);
        let out = self.swap_output(amount_in, from_a_to_b);
        if from_a_to_b {
            PoolState {
                reserve_a: self.reserve_a + effective,
                reserve_b: (self.reserve_b - out) as nat,
                accrued_fee_b: self.accrued_fee_b + fee,
                ..self
            }
        } else {
            PoolState {
                reserve_b: self.reserve_b + effective,
                reserve_a: (self.reserve_a - out) as nat,
                accrued_fee_a: self.accrued_fee_a + fee,
                ..self
            }
        }
    }

    /// Why a trade is refused, if it is. In this order: trading is paused; the quote is
    /// refused (a zero amount, or an empty pool); the payout is below `minimum_output`; a
    /// reserve or a fee accumulator would leave the 64-bit range.
    pub open spec fn swap_refusal(
        self,
        amount_in: nat,
        from_a_to_b: bool,
        minimum_output: nat,
    ) -> Option<ErrorCode> {
        let quote = quote_refusal(
            amount_in,
            self.reserve_in(from_a_to_b),
            self.reserve_out(from_a_to_b),
            self.fee_rate,
        );
        if self.paused {
            Some(ErrorCode::ContractPaused)
        } else if quote is Some {
            quote
        } else if self.swap_output(amount_in, from_a_to_b) < minimum_output {
            Some(ErrorCode::SlippageExceeded)
        } else if !self.swap(amount_in, from_a_to_b).representable() {
            Some(ErrorCode::InvalidInput)
        } else {
            None
        }
    }

    /// The pool after the accrued fees are paid out.
    pub open spec fn distribute_fees(self) -> PoolState {
        PoolState { accrued_fee_a: 0, accrued_fee_b: 0, ..self }
    }

    /// The pool with trading suspended or resumed.
    pub open spec fn set_paused(self, paused: bool) -> PoolState {
        PoolState { paused, ..self }
    }
}

/// A withdrawal pays out no more than the pool holds; it pays out everything exactly when
/// every share is burned, so the pool stays well formed.
pub proof fn lemma_remove_liquidity_wf(s: PoolState, shares: nat)
    requires
        s.wf(),
        0 < shares <= s.total_shares,
    ensures
        s.withdrawal_a(shares) <= s.reserve_a,
        s.withdrawal_b(shares) <= s.reserve_b,
        s.remove_liquidity(shares).wf(),
{
    lemma_withdrawal_bounds(shares, s.reserve_a, s.total_shares);
    lemma_withdrawal_bounds(shares, s.reserve_b, s.total_shares);
}

/// Burning `shares` of `total` pays out at most `reserve`, all of it when `shares == total`
/// and less than all of a non-empty reserve otherwise.
proof fn lemma_withdrawal_bounds(shares: nat, reserve: nat, total: nat)
    requires
        0 < shares <= total,
    ensures
        shares * reserve / total <= reserve,
        shares == total ==> shares * reserve / total == reserve,
        shares < total && reserve > 0 ==> shares * reserve / total < reserve,
{
    lemma_floor_bounds(shares * reserve, total);
    if shares == total {
        assert(reserve * total == shares * reserve) by (nonlinear_arith)
            requires
                shares == total,
        ;
        lemma_quotient_at_least(shares * reserve, total, reserve);
        assert(shares * reserve < (reserve + 1) * total) by (nonlinear_arith)
            requires
                shares == total,
                total > 0,
        ;
        lemma_quotient_below(shares * reserve, total, reserve + 1);
    } else if reserve > 0 {
        assert(shares * reserve < reserve * total) by (nonlinear_arith)
            requires
                shares < total,
                reserve > 0,
        ;
        lemma_quotient_below(shares * reserve, total, reserve);
    } else {
        assert(shares * reserve == 0) by (nonlinear_arith)
            requires
                reserve == 0,
        ;
    }
}

/// A trade against a funded pool pays out less than the reserve it takes from and keeps the
/// pool well formed.
pub proof fn lemma_swap_wf(s: PoolState, amount_in: nat, from_a_to_b: bool)
    requires
        s.wf(),
        s.total_shares > 0,
    ensures
        s.swap_output(amount_in, from_a_to_b) < s.reserve_out(from_a_to_b),
        s.swap(amount_in, from_a_to_b).wf(),
{
    lemma_amount_out_below_reserve(
        amount_in,
        s.reserve_in(from_a_to_b),
        s.reserve_out(from_a_to_b),
        s.fee_rate,
    );
    lemma_fee_bounds(amount_in, s.fee_rate);
}

} // verus!
