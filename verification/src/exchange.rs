//! Fee schedules for exchanging a stable token against its wrapped form.
//!
//! An issuer charges either a fixed fee or a proportional cut of the
//! exchanged amount. The proportional path multiplies by the integer
//! reciprocal `100 / p` and takes that many per cent, rounded half-up to
//! the nearest whole unit.

use crate::amount::Amount;
use vstd::arithmetic::div_mod::{
    lemma_div_multiples_vanish, lemma_div_pos_is_pos, lemma_fundamental_div_mod,
    lemma_fundamental_div_mod_converse_div, lemma_mod_bound,
};
use vstd::arithmetic::mul::lemma_mul_nonnegative;
use vstd::prelude::*;

verus! {

/// A fee charged on an exchange: a fixed quantity, or a whole-number
/// percentage of the exchanged amount.
#[derive(Clone, Copy, Debug, PartialEq, Eq, Structural)]
pub enum ExchangeFee {
    Fixed(Amount),
    Percentage(u64),
}

/// `v * p / 100`, rounded half-up: the nearest whole unit of `p` per cent
/// of `v`, with halves rounding away from zero.
pub open spec fn percentage_rounded(v: int, p: int) -> int {
    (v * p + 50) / 100
}

/// What [`ExchangeFee::calculate_fee`] charges on `amount`.
pub open spec fn fee_charged(fee: ExchangeFee, amount: int) -> int {
    match fee {
        ExchangeFee::Fixed(f) => f@,
        ExchangeFee::Percentage(p) => percentage_rounded(amount, 100 as int / p as int),
    }
}

impl ExchangeFee {
    /// The fee owed on an exchange of `amount`.
    ///
    /// A percentage fee works through the integer reciprocal `100 / p`:
    /// the charge is `amount * (100 / p)` per cent, rounded half-up — one
    /// `p`-th of the amount whenever `p` divides one hundred, and zero once
    /// `p` exceeds one hundred.
    pub fn calculate_fee(&self, amount: Amount) -> (r: Amount)
        requires
            self matches ExchangeFee::Percentage(p) ==> p > 0 && amount@ >= 0 && amount@ * 1000
                <= i64::MAX && amount@ * 1000 * (100 as int / p as int) <= i64::MAX,
        ensures
            r@ == fee_charged(*self, amount@),
    {
        match self {
            ExchangeFee::Fixed(fee) => *fee,
            ExchangeFee::Percentage(percentage) => {
                let inv_perc: u64 = 100 / *percentage;
                div_rounded(amount, Amount::new(inv_perc as i64))
            },
        }
    }
}

/// `v * p / 100` rounded half-up, computed to three decimals and then
/// rounded, as the exchange fee schedule requires.
pub fn div_rounded(v: Amount, p: Amount) -> (r: Amount)
    requires
        v@ >= 0,
        p@ >= 0,
        v@ * 1000 <= i64::MAX,
        v@ * 1000 * p@ <= i64::MAX,
    ensures
        r@ == percentage_rounded(v@, p@),
{
    proof {
        lemma_div_rounded_bounds(v@, p@);
    }
    // f and b are the division to three decimals and to none.
    let f = v.checked_mul(&Amount::new(1000)).unwrap().checked_mul(&p).unwrap().checked_div(
        &Amount::new(100),
    ).unwrap();
    let b = v.checked_mul(&p).unwrap().checked_div(&Amount::new(100)).unwrap();
    let c = f.checked_sub(&b.checked_mul(&Amount::new(1000)).unwrap()).unwrap();
    proof {
        lemma_div_rounded_cases(v@, p@);
    }
    // A fractional part of at least one half rounds up.
    if c.value() >= 500 {
        f.checked_div(&Amount::new(1000)).unwrap().checked_add(&Amount::one()).unwrap()
    } else {
        b
    }
}

/// The intermediates of [`div_rounded`] stay representable.
proof fn lemma_div_rounded_bounds(v: int, p: int)
    requires
        v >= 0,
        p >= 0,
        v * 1000 <= i64::MAX,
        v * 1000 * p <= i64::MAX,
    ensures
        0 <= v * p <= i64::MAX,
        0 <= (v * 1000) * p <= i64::MAX,
        0 <= v * p * 1000 <= i64::MAX,
{
    lemma_mul_nonnegative(v, p);
    lemma_mul_nonnegative(v * 1000, p);
    assert(v * 1000 * p == v * p * 1000) by (nonlinear_arith);
    assert(v * p <= v * p * 1000 || v * p == 0) by (nonlinear_arith)
        requires
            v * p >= 0,
    ;
}

/// Case analysis of [`div_rounded`]'s arithmetic: writing `v * p` as
/// `100 * q + rem`, the three-decimal quotient is `10 * (v * p)`, its
/// fractional part is `10 * rem`, and the result is `q`, or `q + 1` when
/// `rem >= 50` — which is exactly the half-up rounding `(v * p + 50) / 100`.
proof fn lemma_div_rounded_cases(v: int, p: int)
    requires
        v >= 0,
        p >= 0,
    ensures
        ({
            let t = v * p;
            let q = t / 100;
            let rem = t % 100;
            &&& ((v * 1000) * p) / 100 == 10 * t
            &&& t == 100 * q + rem
            &&& 0 <= rem < 100
            &&& 0 <= q
            &&& (10 * t) / 1000 == q
            &&& rem >= 50 ==> (t + 50) / 100 == q + 1
            &&& rem < 50 ==> (t + 50) / 100 == q
        }),
{
    let t = v * p;
    let q = t / 100;
    let rem = t % 100;
    lemma_mul_nonnegative(v, p);
    lemma_fundamental_div_mod(t, 100);
    lemma_mod_bound(t, 100);
    lemma_div_pos_is_pos(t, 100);
    assert((v * 1000) * p == 100 * (10 * (v * p))) by (nonlinear_arith);
    lemma_div_multiples_vanish(10 * t, 100);
    lemma_fundamental_div_mod_converse_div(10 * t, 1000, q, 10 * rem);
    if rem >= 50 {
        lemma_fundamental_div_mod_converse_div(t + 50, 100, q + 1, rem - 50);
    } else {
        lemma_fundamental_div_mod_converse_div(t + 50, 100, q, rem + 50);
    }
}

} // verus!
