//! Laws the pool's pricing obeys, stated over the same spec functions that
//! the executable contracts use.
//!
//! Each law is a proof function: its `requires` delimit the inputs spoken
//! about, its `ensures` are checked facts about every such input.

use crate::amount::div_ceil_int;
use crate::pool::{
    curve_out_balance, effective_in, fee_part, minted_shares, swap_output, withdrawal_share,
};
use vstd::arithmetic::div_mod::{
    lemma_basic_div, lemma_div_by_self, lemma_div_is_ordered, lemma_div_is_ordered_by_denominator,
    lemma_div_multiples_vanish, lemma_div_of0, lemma_fundamental_div_mod, lemma_mod_bound,
};
use vstd::arithmetic::mul::{lemma_mul_inequality, lemma_mul_nonnegative};
use vstd::prelude::*;

verus! {

/// A zero-quantity swap is validated but effect-free: it pays nothing out
/// and the curve prescribes exactly the old output balance, so with the
/// zero deposit the committed reservoirs equal the old ones; the fee rate
/// is untouched by every swap, and the LP supply is untouched because a
/// swap never reaches the supply counter. The swap contract states the
/// same of the pool itself: a zero input that passes validation leaves the
/// pool exactly as it was. The one machine limit: a pool whose reservoir
/// product exceeds the representable range reports an arithmetic fault
/// instead, still with no state change.
pub proof fn lemma_zero_input_swap(rin: int, rout: int, fee: int)
    requires
        rin >= 1,
        rout >= 0,
        0 <= fee < 1000,
    ensures
        swap_output(rin, rout, 0, fee) == 0,
        curve_out_balance(rin, rout, effective_in(0, fee)) == rout,
{
    assert(fee_part(0, fee) == 0) by {
        lemma_div_of0(1000);
    }
    assert(curve_out_balance(rin, rout, 0) == rout) by {
        lemma_div_multiples_vanish(rout, rin);
    }
}

/// Raising the fee rate never raises what a swap pays out, for fixed
/// reservoirs and input.
pub proof fn lemma_fee_monotonic(rin: int, rout: int, amount: int, fee1: int, fee2: int)
    requires
        rin >= 1,
        rout >= 0,
        amount >= 0,
        0 <= fee1 <= fee2 < 1000,
    ensures
        swap_output(rin, rout, amount, fee2) <= swap_output(rin, rout, amount, fee1),
{
    crate::pool::lemma_fee_part_bounds(amount, fee1);
    crate::pool::lemma_fee_part_bounds(amount, fee2);
    // A higher rate retains at least as much fee.
    lemma_mul_inequality(fee1, fee2, amount);
    lemma_div_is_ordered(amount * fee1, amount * fee2, 1000);
    // So the curve sees a smaller deposit, divides by a smaller balance,
    // and prescribes a larger remaining reservoir.
    lemma_mul_nonnegative(rin, rout);
    lemma_div_is_ordered_by_denominator(
        rin * rout,
        rin + effective_in(amount, fee2),
        rin + effective_in(amount, fee1),
    );
}

/// A swap can never empty the output reservoir, as long as the constant
/// product is at least the new input balance, so that the rounded-down
/// curve still keeps a unit back.
pub proof fn lemma_no_free_output(rin: int, rout: int, amount: int, fee: int)
    requires
        rin >= 1,
        rout >= 1,
        amount >= 0,
        0 <= fee < 1000,
        rin * rout >= rin + effective_in(amount, fee),
    ensures
        0 <= swap_output(rin, rout, amount, fee) < rout,
{
    let eff = effective_in(amount, fee);
    crate::pool::lemma_fee_part_bounds(amount, fee);
    crate::pool::lemma_curve_bounds(rin, rout, eff);
    // The curve keeps at least one unit of the output reservoir.
    assert(curve_out_balance(rin, rout, eff) >= 1) by {
        lemma_div_is_ordered(rin + eff, rin * rout, rin + eff);
        lemma_div_by_self(rin + eff);
    }
}

/// The complement of [`lemma_no_free_output`]: once the effective input
/// outgrows the constant product itself, the rounded-down curve keeps
/// nothing back and the swap drains the output reservoir completely. Such
/// dust pools are the one place the strict bound fails.
pub proof fn lemma_drained_output(rin: int, rout: int, amount: int, fee: int)
    requires
        rin >= 1,
        rout >= 1,
        amount >= 0,
        0 <= fee < 1000,
        rin * rout < rin + effective_in(amount, fee),
    ensures
        swap_output(rin, rout, amount, fee) == rout,
{
    let eff = effective_in(amount, fee);
    crate::pool::lemma_fee_part_bounds(amount, fee);
    lemma_mul_nonnegative(rin, rout);
    assert(curve_out_balance(rin, rout, eff) == 0) by {
        lemma_basic_div(rin * rout, rin + eff);
    }
}

/// With no fee and an exact curve division, a swap preserves the product of
/// the reservoir balances exactly.
pub proof fn lemma_product_preserved_exact(rin: int, rout: int, amount: int)
    requires
        rin >= 1,
        rout >= 0,
        amount >= 0,
        (rin * rout) % (rin + amount) == 0,
    ensures
        (rin + amount) * (rout - swap_output(rin, rout, amount, 0)) == rin * rout,
{
    let k = rin * rout;
    let d = rin + amount;
    assert(fee_part(amount, 0) == 0) by {
        lemma_div_of0(1000);
    }
    lemma_fundamental_div_mod(k, d);
}

/// In general the committed reservoir product can dip below the old product
/// `Rin * Rout` only by the rounding loss of one floor division: it always
/// stays above `Rin * Rout - (Rin + amount)`. The fee, being deposited but
/// not priced, pushes in the other direction.
pub proof fn lemma_product_near_preserved(rin: int, rout: int, amount: int, fee: int)
    requires
        rin >= 1,
        rout >= 0,
        amount >= 0,
        0 <= fee < 1000,
    ensures
        (rin + amount) * (rout - swap_output(rin, rout, amount, fee)) > rin * rout - (rin
            + amount),
{
    let k = rin * rout;
    let eff = effective_in(amount, fee);
    let d = rin + amount;
    let q_eff = curve_out_balance(rin, rout, eff);
    let q_full = k / d;
    crate::pool::lemma_fee_part_bounds(amount, fee);
    lemma_mul_nonnegative(rin, rout);
    // Dividing by the smaller fee-reduced balance leaves at least as much
    // in the output reservoir's replacement.
    lemma_div_is_ordered_by_denominator(k, rin + eff, d);
    // One floor division loses less than one divisor's worth.
    lemma_fundamental_div_mod(k, d);
    lemma_mod_bound(k, d);
    assert(d * q_full > k - d);
    lemma_mul_inequality(q_full, q_eff, d);
    assert(q_full * d <= q_eff * d ==> d * q_full <= d * q_eff) by (nonlinear_arith);
}

/// Round-trip liquidity on a fresh pool: the first paired deposit mints one
/// share per unit deposited, and redeeming every one of those shares pays
/// back exactly the deposited quantities.
pub proof fn lemma_round_trip_first_deposit(a: int, b: int)
    requires
        a >= 0,
        b >= 0,
        a + b >= 1,
    ensures
        minted_shares(a, 0, b, 0) == a + b,
        withdrawal_share(a + b, a, a + b) == a,
        withdrawal_share(a + b, b, a + b) == b,
{
    let s = a + b;
    lemma_exact_withdrawal(a, s);
    lemma_exact_withdrawal(b, s);
}

/// Redeeming the whole supply against a reservoir pays the reservoir out
/// exactly: the ceiling rounding has nothing to round.
proof fn lemma_exact_withdrawal(balance: int, s: int)
    requires
        s >= 1,
    ensures
        div_ceil_int(s * balance, s) == balance,
{
    lemma_div_multiples_vanish(-balance, s);
    assert(-(s * balance) == s * (-balance)) by (nonlinear_arith);
}

} // verus!
