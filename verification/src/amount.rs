//! The fixed-precision quantity type used for every balance in the crate.
//!
//! An [`Amount`] is a signed count of indivisible base units of some token.
//! All arithmetic is overflow-checked: each operation returns `None` instead
//! of wrapping, saturating, or panicking, so a caller can surface an
//! arithmetic fault without any state change.

use vstd::arithmetic::div_mod::{
    lemma_div_decreases, lemma_div_is_ordered, lemma_div_is_ordered_by_denominator,
    lemma_div_nonincreasing, lemma_div_of0, lemma_div_pos_is_pos, lemma_fundamental_div_mod,
    lemma_fundamental_div_mod_converse_div, lemma_mod_bound, lemma_small_mod,
};
use vstd::prelude::*;

verus! {

/// Truncating integer division (rounding toward zero), the rule the machine
/// division instruction follows. Meaningful only for `b != 0`.
pub open spec fn div_trunc(a: int, b: int) -> int {
    if b > 0 {
        if a >= 0 {
            a / b
        } else {
            -((-a) / b)
        }
    } else {
        if a >= 0 {
            -(a / (-b))
        } else {
            (-a) / (-b)
        }
    }
}

/// Integer division rounding toward positive infinity. Meaningful only for
/// `b != 0`.
pub open spec fn div_ceil_int(a: int, b: int) -> int {
    if b > 0 {
        -((-a) / b)
    } else {
        -(a / (-b))
    }
}

/// How Euclidean division treats a negated dividend: the quotient flips sign
/// and, when the division is inexact, moves one further from zero.
proof fn lemma_div_of_negated(m: int, n: int)
    requires
        m >= 0,
        n > 0,
    ensures
        m % n == 0 ==> (-m) / n == -(m / n),
        m % n != 0 ==> (-m) / n == -(m / n) - 1,
{
    let q = m / n;
    let r = m % n;
    lemma_fundamental_div_mod(m, n);
    lemma_mod_bound(m, n);
    if r == 0 {
        assert(-m == (-q) * n + 0) by (nonlinear_arith)
            requires
                m == q * n + r,
                r == 0,
        ;
        lemma_fundamental_div_mod_converse_div(-m, n, -q, 0);
    } else {
        assert(-m == (-q - 1) * n + (n - r)) by (nonlinear_arith)
            requires
                m == q * n + r,
        ;
        lemma_fundamental_div_mod_converse_div(-m, n, -q - 1, n - r);
    }
}

/// A signed, fixed-precision token quantity.
///
/// The value is a count of base units held in an `i64`. Negative values are
/// representable (for example as intermediate differences); container and
/// reservoir balances are kept non-negative by their owners' invariants.
#[derive(Clone, Copy, Debug, PartialEq, Eq, Structural)]
pub struct Amount {
    /// The raw count of base units.
    pub value: i64,
}

impl View for Amount {
    type V = int;

    open spec fn view(&self) -> int {
        self.value as int
    }
}

impl Amount {
    /// Wraps a raw count of base units.
    pub fn new(value: i64) -> (r: Amount)
        ensures
            r@ == value,
    {
        Amount { value }
    }

    /// The zero quantity.
    pub fn zero() -> (r: Amount)
        ensures
            r@ == 0,
    {
        Amount { value: 0 }
    }

    /// One base unit.
    pub fn one() -> (r: Amount)
        ensures
            r@ == 1,
    {
        Amount { value: 1 }
    }

    /// The raw count of base units.
    pub fn value(&self) -> (r: i64)
        ensures
            r == self@,
    {
        self.value
    }

    /// Whether this quantity is exactly zero.
    pub fn is_zero(&self) -> (r: bool)
        ensures
            r == (self@ == 0),
    {
        self.value == 0
    }

    /// Whether this quantity is negative.
    pub fn is_negative(&self) -> (r: bool)
        ensures
            r == (self@ < 0),
    {
        self.value < 0
    }

    /// Overflow-checked addition.
    pub fn checked_add(&self, other: &Amount) -> (r: Option<Amount>)
        ensures
            i64::MIN <= self@ + other@ <= i64::MAX ==> (r matches Some(s) && s@ == self@ + other@),
            !(i64::MIN <= self@ + other@ <= i64::MAX) ==> r is None,
    {
        match self.value.checked_add(other.value) {
            Some(v) => Some(Amount { value: v }),
            None => None,
        }
    }

    /// Overflow-checked subtraction.
    pub fn checked_sub(&self, other: &Amount) -> (r: Option<Amount>)
        ensures
            i64::MIN <= self@ - other@ <= i64::MAX ==> (r matches Some(s) && s@ == self@ - other@),
            !(i64::MIN <= self@ - other@ <= i64::MAX) ==> r is None,
    {
        match self.value.checked_sub(other.value) {
            Some(v) => Some(Amount { value: v }),
            None => None,
        }
    }

    /// Overflow-checked multiplication.
    pub fn checked_mul(&self, other: &Amount) -> (r: Option<Amount>)
        ensures
            i64::MIN <= self@ * other@ <= i64::MAX ==> (r matches Some(p) && p@ == self@ * other@),
            !(i64::MIN <= self@ * other@ <= i64::MAX) ==> r is None,
    {
        match self.value.checked_mul(other.value) {
            Some(v) => Some(Amount { value: v }),
            None => None,
        }
    }

    /// Checked truncating division. Fails fast on a zero divisor instead of
    /// returning a default, and on the one overflowing quotient.
    pub fn checked_div(&self, other: &Amount) -> (r: Option<Amount>)
        ensures
            other@ == 0 ==> r is None,
            self@ == i64::MIN && other@ == -1 ==> r is None,
            other@ != 0 && !(self@ == i64::MIN && other@ == -1) ==> (r matches Some(q) && q@
                == div_trunc(self@, other@)),
    {
        proof {
            if other@ != 0 && !(self@ == i64::MIN && other@ == -1) {
                lemma_div_trunc_in_range(self@, other@);
            }
        }
        match self.value.checked_div(other.value) {
            Some(v) => Some(Amount { value: v }),
            None => None,
        }
    }

    /// Checked division rounding the quotient toward positive infinity.
    /// Fails fast on a zero divisor, and on the one overflowing quotient.
    pub fn checked_div_ceil(&self, other: &Amount) -> (r: Option<Amount>)
        ensures
            other@ == 0 ==> r is None,
            self@ == i64::MIN && other@ == -1 ==> r is None,
            other@ != 0 && !(self@ == i64::MIN && other@ == -1) ==> (r matches Some(q) && q@
                == div_ceil_int(self@, other@)),
    {
        proof {
            if other@ != 0 && !(self@ == i64::MIN && other@ == -1) {
                lemma_div_trunc_in_range(self@, other@);
            }
        }
        let q = match self.value.checked_div(other.value) {
            Some(v) => v,
            None => {
                return None;
            },
        };
        let rem = match self.value.checked_rem(other.value) {
            Some(v) => v,
            None => {
                return None;
            },
        };
        proof {
            lemma_div_ceil_from_trunc(self@, other@);
            assert(q == div_trunc(self@, other@));
            assert(rem == trunc_rem(self@, other@));
        }
        if rem != 0 && ((self.value < 0) == (other.value < 0)) {
            proof {
                lemma_ceil_step_fits(self@, other@);
            }
            Some(Amount { value: q + 1 })
        } else {
            Some(Amount { value: q })
        }
    }
}

impl PartialOrd for Amount {
    fn partial_cmp(&self, other: &Amount) -> (r: Option<core::cmp::Ordering>) {
        if self.value < other.value {
            Some(core::cmp::Ordering::Less)
        } else if self.value == other.value {
            Some(core::cmp::Ordering::Equal)
        } else {
            Some(core::cmp::Ordering::Greater)
        }
    }
}

impl vstd::std_specs::cmp::PartialOrdSpecImpl for Amount {
    open spec fn obeys_partial_cmp_spec() -> bool {
        true
    }

    open spec fn partial_cmp_spec(&self, other: &Amount) -> Option<core::cmp::Ordering> {
        if self@ < other@ {
            Some(core::cmp::Ordering::Less)
        } else if self@ == other@ {
            Some(core::cmp::Ordering::Equal)
        } else {
            Some(core::cmp::Ordering::Greater)
        }
    }
}

/// The truncating quotient stays within `i64` except for `i64::MIN / -1`.
proof fn lemma_div_trunc_in_range(a: int, b: int)
    requires
        i64::MIN <= a <= i64::MAX,
        i64::MIN <= b <= i64::MAX,
        b != 0,
        !(a == i64::MIN && b == -1),
    ensures
        i64::MIN <= div_trunc(a, b) <= i64::MAX,
        a == 0 ==> div_trunc(a, b) == 0,
{
    let m = if a >= 0 { a } else { -a };
    let n = if b > 0 { b } else { -b };
    lemma_div_pos_is_pos(m, n);
    lemma_div_nonincreasing(m, n);
    if m > 0 && n > 1 {
        lemma_div_decreases(m, n);
    }
    if m == 0 {
        lemma_div_of0(n);
    }
}

/// When the division is inexact the divisor's magnitude is at least two, so
/// the truncating quotient leaves room for the ceiling adjustment.
proof fn lemma_ceil_step_fits(a: int, b: int)
    requires
        i64::MIN <= a <= i64::MAX,
        i64::MIN <= b <= i64::MAX,
        b != 0,
        !(a == i64::MIN && b == -1),
        trunc_rem(a, b) != 0,
        (a < 0) == (b < 0),
    ensures
        0 <= div_trunc(a, b) < i64::MAX,
{
    let m = if a >= 0 { a } else { -a };
    let n = if b > 0 { b } else { -b };
    lemma_div_pos_is_pos(m, n);
    if n == 1 {
        lemma_mod_bound(m, n);
    }
    lemma_div_is_ordered_by_denominator(m, 2, n);
    lemma_div_is_ordered(m, 0x8000_0000_0000_0000, 2);
}

/// Relates the ceiling quotient to the truncating quotient and remainder:
/// they agree except when the division is inexact and the signs match, in
/// which case the ceiling is one more.
proof fn lemma_div_ceil_from_trunc(a: int, b: int)
    requires
        b != 0,
    ensures
        div_trunc(a, b) * b + trunc_rem(a, b) == a,
        a == 0 ==> trunc_rem(a, b) == 0,
        trunc_rem(a, b) != 0 && (a < 0) == (b < 0) ==> div_ceil_int(a, b) == div_trunc(a, b) + 1,
        !(trunc_rem(a, b) != 0 && (a < 0) == (b < 0)) ==> div_ceil_int(a, b) == div_trunc(a, b),
{
    let m = if a >= 0 { a } else { -a };
    let n = if b > 0 { b } else { -b };
    lemma_fundamental_div_mod(m, n);
    lemma_mod_bound(m, n);
    lemma_div_pos_is_pos(m, n);
    lemma_div_of_negated(m, n);
    if m == 0 {
        lemma_small_mod(0nat, n as nat);
    }
    let q = m / n;
    let r = m % n;
    if a >= 0 && b > 0 {
        assert(a == q * n + r) by (nonlinear_arith)
            requires
                m == n * q + r,
                a == m,
                b == n,
        ;
    } else if a < 0 && b > 0 {
        assert(a == (-q) * n + (-r)) by (nonlinear_arith)
            requires
                m == n * q + r,
                a == -m,
                b == n,
        ;
    } else if a >= 0 && b < 0 {
        assert(a == (-q) * (-n) + r) by (nonlinear_arith)
            requires
                m == n * q + r,
                a == m,
                b == -n,
        ;
    } else {
        assert(a == q * (-n) + (-r)) by (nonlinear_arith)
            requires
                m == n * q + r,
                a == -m,
                b == -n,
        ;
    }
}

/// The remainder that pairs with [`div_trunc`]: it carries the sign of the
/// dividend. Meaningful only for `b != 0`.
pub open spec fn trunc_rem(a: int, b: int) -> int {
    if a >= 0 {
        if b > 0 {
            a % b
        } else {
            a % (-b)
        }
    } else {
        if b > 0 {
            -((-a) % b)
        } else {
            -((-a) % (-b))
        }
    }
}

} // verus!
