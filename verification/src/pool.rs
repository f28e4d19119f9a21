//! A constant-product swap pool over two token reservoirs.
//!
//! The pool prices a trade by holding the product of its two reservoir
//! balances constant: a swap pays out `Rout - (Rin * Rout) / (Rin + in)`,
//! where the input counted against the curve is first reduced by a per-mil
//! fee. The full, un-reduced input is still deposited, so the fee stays in
//! the pool and accrues to the holders of LP shares.
//!
//! Liquidity providers deposit both assets at once and are minted LP shares
//! through the external resource manager's total-supply counter, modelled
//! here by [`SupplyLedger`]. Redeeming shares pays out a proportional part of
//! both reservoirs, rounded in the withdrawer's favour.
//!
//! Every mutating call is atomic: it either validates fully and commits, or
//! returns a [`PoolError`] and leaves both the pool and the ledger untouched.

use crate::amount::Amount;
use vstd::arithmetic::div_mod::{
    lemma_div_by_multiple, lemma_div_is_ordered, lemma_div_is_ordered_by_denominator,
    lemma_div_multiples_vanish, lemma_div_of0, lemma_div_pos_is_pos,
};
use vstd::arithmetic::mul::{lemma_mul_inequality, lemma_mul_nonnegative};
use vstd::prelude::*;

verus! {

/// The fee retained from an input of `amount` at `fee` parts per thousand,
/// rounded down.
pub open spec fn fee_part(amount: int, fee: int) -> int {
    (amount * fee) / 1000
}

/// The portion of the input counted against the pricing curve once the fee
/// is retained.
pub open spec fn effective_in(amount: int, fee: int) -> int {
    amount - fee_part(amount, fee)
}

/// The output reservoir balance the constant-product curve prescribes after
/// `eff` is added to the input reservoir: `(Rin * Rout) / (Rin + eff)`,
/// rounded down.
pub open spec fn curve_out_balance(rin: int, rout: int, eff: int) -> int {
    (rin * rout) / (rin + eff)
}

/// What a swap of `amount` pays out of reservoirs `rin`/`rout` at fee rate
/// `fee`.
pub open spec fn swap_output(rin: int, rout: int, amount: int, fee: int) -> int {
    rout - curve_out_balance(rin, rout, effective_in(amount, fee))
}

/// Whether every intermediate value of such a swap stays representable.
pub open spec fn swap_fits(rin: int, rout: int, amount: int, fee: int) -> bool {
    &&& amount * fee <= i64::MAX
    &&& rin * rout <= i64::MAX
    &&& rin + amount <= i64::MAX
}

/// The ratio of a deposit to the reservoir it joins, rounded down. An empty
/// reservoir puts no price on the deposit: the ratio is one and the deposit
/// itself sets the price.
pub open spec fn deposit_ratio(amount: int, balance: int) -> int {
    if balance == 0 {
        1
    } else {
        amount / balance
    }
}

/// LP shares one side of a paired deposit earns: the deposit times its
/// deposit-to-reservoir ratio, with the division fused — `(amount * amount)
/// / balance`, rounded down — so rounding happens once, at whole shares,
/// and a deposit smaller than its reservoir still mints its proportional
/// part. A deposit into an empty reservoir is priced at par.
pub open spec fn deposit_shares(amount: int, balance: int) -> int {
    if balance == 0 {
        amount
    } else {
        (amount * amount) / balance
    }
}

/// LP shares minted for a paired deposit: the sum of the two sides'
/// shares.
pub open spec fn minted_shares(a_amt: int, a_bal: int, b_amt: int, b_bal: int) -> int {
    deposit_shares(a_amt, a_bal) + deposit_shares(b_amt, b_bal)
}

/// Whether every intermediate value of such a deposit stays representable.
pub open spec fn add_fits(a_amt: int, a_bal: int, b_amt: int, b_bal: int, supply: int) -> bool {
    &&& (a_bal != 0 ==> a_amt * a_amt <= i64::MAX)
    &&& (b_bal != 0 ==> b_amt * b_amt <= i64::MAX)
    &&& minted_shares(a_amt, a_bal, b_amt, b_bal) <= i64::MAX
    &&& a_bal + a_amt <= i64::MAX
    &&& b_bal + b_amt <= i64::MAX
    &&& supply + minted_shares(a_amt, a_bal, b_amt, b_bal) <= i64::MAX
}

/// What redeeming `lp` shares out of `supply` pays from a reservoir holding
/// `balance`: the proportional part, rounded up in the withdrawer's favour.
pub open spec fn withdrawal_share(lp: int, balance: int, supply: int) -> int {
    crate::amount::div_ceil_int(lp * balance, supply)
}

/// Whether every intermediate value of such a withdrawal stays representable.
pub open spec fn remove_fits(lp: int, lo_bal: int, hi_bal: int) -> bool {
    &&& lp * lo_bal <= i64::MAX
    &&& lp * hi_bal <= i64::MAX
}

/// The retained fee is at least zero and at most the full input, for any fee
/// rate below one.
pub proof fn lemma_fee_part_bounds(amount: int, fee: int)
    requires
        amount >= 0,
        0 <= fee < 1000,
    ensures
        0 <= fee_part(amount, fee) <= amount,
        0 <= effective_in(amount, fee) <= amount,
{
    lemma_mul_nonnegative(amount, fee);
    lemma_div_pos_is_pos(amount * fee, 1000);
    lemma_mul_inequality(fee, 1000, amount);
    lemma_div_is_ordered(amount * fee, amount * 1000, 1000);
    lemma_div_by_multiple(amount, 1000);
}

/// The curve's new output balance is at least zero and at most the old one:
/// a swap can never owe more than the reservoir holds.
pub proof fn lemma_curve_bounds(rin: int, rout: int, eff: int)
    requires
        rin >= 1,
        rout >= 0,
        eff >= 0,
    ensures
        0 <= curve_out_balance(rin, rout, eff) <= rout,
{
    lemma_mul_nonnegative(rin, rout);
    lemma_div_pos_is_pos(rin * rout, rin + eff);
    lemma_div_is_ordered_by_denominator(rin * rout, rin, rin + eff);
    lemma_div_multiples_vanish(rout, rin);
}

/// One side's share of a paired deposit is never negative.
pub proof fn lemma_deposit_shares_nonneg(amount: int, balance: int)
    requires
        amount >= 0,
        balance >= 0,
    ensures
        deposit_shares(amount, balance) >= 0,
{
    lemma_mul_nonnegative(amount, amount);
    if balance != 0 {
        lemma_div_pos_is_pos(amount * amount, balance);
    }
}

/// Redeeming no more than the whole supply never pays more than the
/// reservoir holds, and never a negative quantity, even with the rounding
/// favouring the withdrawer.
pub proof fn lemma_withdrawal_share_bounds(lp: int, balance: int, supply: int)
    requires
        0 <= lp <= supply,
        balance >= 0,
        supply >= 1,
    ensures
        0 <= withdrawal_share(lp, balance, supply) <= balance,
{
    let p = lp * balance;
    lemma_mul_nonnegative(lp, balance);
    lemma_mul_inequality(lp, supply, balance);
    assert(supply * balance == balance * supply) by (nonlinear_arith);
    lemma_div_is_ordered(-p, 0, supply);
    lemma_div_of0(supply);
    lemma_div_is_ordered(-(balance * supply), -p, supply);
    lemma_div_multiples_vanish(-balance, supply);
    assert(supply * -balance == -(balance * supply)) by (nonlinear_arith);
}

/// Identifier of an asset class: opaque to the pool except for equality and
/// a total order fixed at creation time.
#[derive(Clone, Copy, Debug, PartialEq, Eq, Structural)]
pub struct ResourceId {
    pub raw: u64,
}

/// The kind of an asset class, as the ledger's metadata query reports it.
/// A pool only holds simple fungible resources.
#[derive(Clone, Copy, Debug, PartialEq, Eq, Structural)]
pub enum ResourceKind {
    Fungible,
    NonFungible,
    Confidential,
}

/// Why a pool call was rejected. Every rejection happens before any state
/// change.
#[derive(Clone, Copy, Debug, PartialEq, Eq, Structural)]
pub enum PoolError {
    /// Pool construction parameters are unacceptable.
    InvalidConfig,
    /// A referenced resource is not one of the pool's two.
    UnknownResource,
    /// A swap was attempted while a reservoir is empty.
    EmptyPool,
    /// A redeemed container does not hold this pool's LP share resource.
    InvalidLpToken,
    /// An intermediate value left the representable range, or a division
    /// invariant was broken.
    ArithmeticFault,
    /// A withdrawal asked for more than a reservoir holds.
    InsufficientReservoir,
}

/// A quantity of one specific resource: the value container that pool calls
/// take and hand back.
#[derive(Clone, Copy, Debug)]
pub struct Tokens {
    pub resource: ResourceId,
    pub amount: Amount,
}

impl Tokens {
    /// A container never carries a negative quantity.
    pub open spec fn wf(&self) -> bool {
        self.amount@ >= 0
    }

    /// Packs a resource and a quantity into a container.
    pub fn new(resource: ResourceId, amount: Amount) -> (r: Tokens)
        ensures
            r.resource == resource,
            r.amount == amount,
    {
        Tokens { resource, amount }
    }
}

/// One side of the pool: a resource and the balance held for it.
#[derive(Clone, Copy, Debug)]
pub struct Reservoir {
    pub resource: ResourceId,
    pub balance: Amount,
}

/// The external resource manager's view of one resource, reduced to what the
/// pool consumes: the total minted supply. The host ledger owns the real
/// counter; this value stands in for it so that LP-share accounting is
/// checkable and testable.
#[derive(Debug)]
pub struct SupplyLedger {
    resource: ResourceId,
    total: Amount,
}

impl SupplyLedger {
    /// The resource this ledger counts.
    pub closed spec fn spec_resource(&self) -> ResourceId {
        self.resource
    }

    /// The total supply currently outstanding.
    pub closed spec fn spec_total(&self) -> int {
        self.total@
    }

    /// A supply is never negative.
    pub open spec fn wf(&self) -> bool {
        self.spec_total() >= 0
    }

    /// A fresh ledger for a newly created resource: nothing minted yet.
    pub fn new(resource: ResourceId) -> (r: SupplyLedger)
        ensures
            r.wf(),
            r.spec_resource() == resource,
            r.spec_total() == 0,
    {
        SupplyLedger { resource, total: Amount::zero() }
    }

    /// The total supply of the managed resource.
    pub fn total_supply(&self) -> (r: Amount)
        ensures
            r@ == self.spec_total(),
    {
        self.total
    }

    /// Mints `amount` new units, returning the container holding them.
    /// Fails without a state change if the total supply would overflow.
    pub fn mint(&mut self, amount: Amount) -> (r: Option<Tokens>)
        requires
            old(self).wf(),
            amount@ >= 0,
        ensures
            final(self).wf(),
            final(self).spec_resource() == old(self).spec_resource(),
            old(self).spec_total() + amount@ <= i64::MAX ==> (r matches Some(t) && t.resource
                == old(self).spec_resource() && t.amount == amount && final(self).spec_total()
                == old(self).spec_total() + amount@),
            old(self).spec_total() + amount@ > i64::MAX ==> r is None && *final(self) == *old(
                self,
            ),
    {
        match self.total.checked_add(&amount) {
            Some(new_total) => {
                self.total = new_total;
                Some(Tokens { resource: self.resource, amount })
            },
            None => None,
        }
    }

    /// Burns a container of the managed resource, removing its quantity from
    /// the total supply.
    pub fn burn(&mut self, tokens: Tokens) -> (r: Amount)
        requires
            old(self).wf(),
            tokens.resource == old(self).spec_resource(),
            0 <= tokens.amount@ <= old(self).spec_total(),
        ensures
            final(self).wf(),
            final(self).spec_resource() == old(self).spec_resource(),
            final(self).spec_total() == old(self).spec_total() - tokens.amount@,
            r@ == final(self).spec_total(),
    {
        let new_total = self.total.checked_sub(&tokens.amount).unwrap();
        self.total = new_total;
        new_total
    }
}

/// The pool itself: two reservoirs for two distinct resources, ordered by
/// their identifiers, plus the identity of the LP share resource and the
/// per-mil fee rate.
#[derive(Debug)]
pub struct Pool {
    lo: Reservoir,
    hi: Reservoir,
    lp_resource: ResourceId,
    fee: u16,
}

impl Pool {
    /// The reservoir with the smaller resource identifier.
    pub closed spec fn spec_lo(&self) -> Reservoir {
        self.lo
    }

    /// The reservoir with the larger resource identifier.
    pub closed spec fn spec_hi(&self) -> Reservoir {
        self.hi
    }

    /// The LP share resource's identity.
    pub closed spec fn spec_lp(&self) -> ResourceId {
        self.lp_resource
    }

    /// The fee rate in parts per thousand.
    pub closed spec fn spec_fee(&self) -> int {
        self.fee as int
    }

    /// The pool's invariant: two distinct resources in identifier order,
    /// non-negative balances, and a fee rate below one.
    pub open spec fn wf(&self) -> bool {
        &&& self.spec_lo().resource.raw < self.spec_hi().resource.raw
        &&& self.spec_lo().balance@ >= 0
        &&& self.spec_hi().balance@ >= 0
        &&& 0 <= self.spec_fee() < 1000
    }

    /// Whether `id` names one of the two pooled resources.
    pub open spec fn is_pool_resource(&self, id: ResourceId) -> bool {
        id == self.spec_lo().resource || id == self.spec_hi().resource
    }

    /// The balance held for a pooled resource.
    pub open spec fn spec_balance_of(&self, id: ResourceId) -> int {
        if id == self.spec_lo().resource {
            self.spec_lo().balance@
        } else {
            self.spec_hi().balance@
        }
    }

    /// The counterpart of a pooled resource.
    pub open spec fn spec_other(&self, id: ResourceId) -> ResourceId {
        if id == self.spec_lo().resource {
            self.spec_hi().resource
        } else {
            self.spec_lo().resource
        }
    }

    /// Builds a pool for the pair `a`/`b` with empty reservoirs.
    ///
    /// The caller supplies each resource's kind as the ledger's metadata
    /// query reported it, and the identity of a freshly created LP share
    /// resource. Construction is rejected with `InvalidConfig` when the two
    /// resources coincide, when either is not simple fungible, or when the
    /// per-mil fee rate is not below one.
    pub fn new(
        a: ResourceId,
        a_kind: ResourceKind,
        b: ResourceId,
        b_kind: ResourceKind,
        lp_resource: ResourceId,
        fee: u16,
    ) -> (r: Result<Pool, PoolError>)
        ensures
            ({
                let ok = a != b && a_kind == ResourceKind::Fungible && b_kind
                    == ResourceKind::Fungible && fee < 1000;
                match r {
                    Ok(pool) => ok && pool.wf() && pool.is_pool_resource(a)
                        && pool.is_pool_resource(b) && (pool.spec_lo().resource == a
                        || pool.spec_lo().resource == b) && (pool.spec_hi().resource == a
                        || pool.spec_hi().resource == b) && pool.spec_balance_of(a) == 0
                        && pool.spec_balance_of(b) == 0 && pool.spec_lp() == lp_resource
                        && pool.spec_fee() == fee,
                    Err(e) => !ok && e == PoolError::InvalidConfig,
                }
            }),
    {
        if a.raw == b.raw {
            return Err(PoolError::InvalidConfig);
        }
        if !matches!(a_kind, ResourceKind::Fungible) {
            return Err(PoolError::InvalidConfig);
        }
        if !matches!(b_kind, ResourceKind::Fungible) {
            return Err(PoolError::InvalidConfig);
        }
        if fee >= 1000 {
            return Err(PoolError::InvalidConfig);
        }
        let (lo_res, hi_res) = if a.raw < b.raw {
            (a, b)
        } else {
            (b, a)
        };
        Ok(
            Pool {
                lo: Reservoir { resource: lo_res, balance: Amount::zero() },
                hi: Reservoir { resource: hi_res, balance: Amount::zero() },
                lp_resource,
                fee,
            },
        )
    }

    /// The pooled resource with the smaller identifier.
    pub fn get_a_resource(&self) -> (r: ResourceId)
        ensures
            r == self.spec_lo().resource,
    {
        self.lo.resource
    }

    /// The pooled resource with the larger identifier.
    pub fn get_b_resource(&self) -> (r: ResourceId)
        ensures
            r == self.spec_hi().resource,
    {
        self.hi.resource
    }

    /// The identity of the LP share resource.
    pub fn lp_resource(&self) -> (r: ResourceId)
        ensures
            r == self.spec_lp(),
    {
        self.lp_resource
    }

    /// The fee rate in parts per thousand.
    pub fn fee(&self) -> (r: u16)
        ensures
            r as int == self.spec_fee(),
    {
        self.fee
    }

    /// The total supply of LP shares, as the external resource manager
    /// reports it.
    pub fn lp_total_supply(&self, ledger: &SupplyLedger) -> (r: Amount)
        requires
            ledger.spec_resource() == self.spec_lp(),
        ensures
            r@ == ledger.spec_total(),
    {
        ledger.total_supply()
    }

    /// The balance held for `resource`, or `UnknownResource` if it is not
    /// pooled here.
    pub fn get_pool_balance(&self, resource: ResourceId) -> (r: Result<Amount, PoolError>)
        requires
            self.wf(),
        ensures
            self.is_pool_resource(resource) ==> (r matches Ok(bal) && bal@ == self.spec_balance_of(
                resource,
            )),
            !self.is_pool_resource(resource) ==> r == Err::<Amount, PoolError>(
                PoolError::UnknownResource,
            ),
    {
        if resource.raw == self.lo.resource.raw {
            Ok(self.lo.balance)
        } else if resource.raw == self.hi.resource.raw {
            Ok(self.hi.balance)
        } else {
            Err(PoolError::UnknownResource)
        }
    }

    /// Both balances, keyed by resource and ordered by identifier.
    pub fn get_pool_balances(&self) -> (r: Vec<(ResourceId, Amount)>)
        requires
            self.wf(),
        ensures
            r@.len() == 2,
            r@[0].0 == self.spec_lo().resource,
            r@[0].1@ == self.spec_lo().balance@,
            r@[1].0 == self.spec_hi().resource,
            r@[1].1@ == self.spec_hi().balance@,
    {
        let mut balances: Vec<(ResourceId, Amount)> = Vec::new();
        balances.push((self.lo.resource, self.lo.balance));
        balances.push((self.hi.resource, self.hi.balance));
        balances
    }

    /// The counterpart of `resource`, or `UnknownResource` if `resource` is
    /// not pooled here.
    pub fn other_resource(&self, resource: ResourceId) -> (r: Result<ResourceId, PoolError>)
        requires
            self.wf(),
        ensures
            self.is_pool_resource(resource) ==> r == Ok::<ResourceId, PoolError>(
                self.spec_other(resource),
            ),
            !self.is_pool_resource(resource) ==> r == Err::<ResourceId, PoolError>(
                PoolError::UnknownResource,
            ),
    {
        if resource.raw == self.lo.resource.raw {
            Ok(self.hi.resource)
        } else if resource.raw == self.hi.resource.raw {
            Ok(self.lo.resource)
        } else {
            Err(PoolError::UnknownResource)
        }
    }

    /// Checks that `id` names one of the two pooled resources.
    pub fn check_pool_resource(&self, id: ResourceId) -> (r: Result<(), PoolError>)
        requires
            self.wf(),
        ensures
            self.is_pool_resource(id) ==> r == Ok::<(), PoolError>(()),
            !self.is_pool_resource(id) ==> r == Err::<(), PoolError>(PoolError::UnknownResource),
    {
        if id.raw == self.lo.resource.raw || id.raw == self.hi.resource.raw {
            Ok(())
        } else {
            Err(PoolError::UnknownResource)
        }
    }

    /// Checks that `a` and `b` are two distinct pooled resources. A repeated
    /// resource is reported the same way as a foreign one.
    pub fn check_pool_resources(&self, a: ResourceId, b: ResourceId) -> (r: Result<(), PoolError>)
        requires
            self.wf(),
        ensures
            a != b && self.is_pool_resource(a) && self.is_pool_resource(b) ==> r == Ok::<
                (),
                PoolError,
            >(()),
            !(a != b && self.is_pool_resource(a) && self.is_pool_resource(b)) ==> r == Err::<
                (),
                PoolError,
            >(PoolError::UnknownResource),
    {
        if a.raw == b.raw {
            return Err(PoolError::UnknownResource);
        }
        match self.check_pool_resource(a) {
            Ok(()) => self.check_pool_resource(b),
            Err(e) => Err(e),
        }
    }

    /// Checks that a reservoir balance is not zero, as the swap curve is
    /// about to divide by it.
    pub fn check_non_empty(amount: &Amount) -> (r: Result<(), PoolError>)
        ensures
            amount@ != 0 ==> r == Ok::<(), PoolError>(()),
            amount@ == 0 ==> r == Err::<(), PoolError>(PoolError::EmptyPool),
    {
        if amount.is_zero() {
            Err(PoolError::EmptyPool)
        } else {
            Ok(())
        }
    }

    /// The ratio of `amount` to the balance held for `resource`, rounded
    /// down; one if that reservoir is empty.
    pub fn get_pool_ratio(&self, resource: ResourceId, amount: Amount) -> (r: Result<
        Amount,
        PoolError,
    >)
        requires
            self.wf(),
            amount@ >= 0,
        ensures
            self.is_pool_resource(resource) ==> (r matches Ok(ratio) && ratio@ == deposit_ratio(
                amount@,
                self.spec_balance_of(resource),
            )),
            !self.is_pool_resource(resource) ==> r == Err::<Amount, PoolError>(
                PoolError::UnknownResource,
            ),
    {
        let balance = match self.get_pool_balance(resource) {
            Ok(b) => b,
            Err(e) => {
                return Err(e);
            },
        };
        if balance.is_zero() {
            Ok(Amount::one())
        } else {
            Ok(amount.checked_div(&balance).unwrap())
        }
    }

    /// Exchanges the contents of `input` for the pool's other resource.
    ///
    /// The trade is priced on the fee-reduced input, but the full input is
    /// deposited, so the fee permanently fattens the pool in favour of LP
    /// holders. The curve division rounds down to a whole base unit: with
    /// reservoirs of 1000/1000 and no fee, an input of 100 leaves
    /// `floor(1000000 / 1100) = 909` behind and pays out 91. On any error
    /// the pool is unchanged.
    pub fn swap(&mut self, input: Tokens, output_resource: ResourceId) -> (r: Result<
        Tokens,
        PoolError,
    >)
        requires
            old(self).wf(),
            input.wf(),
        ensures
            final(self).wf(),
            final(self).spec_lo().resource == old(self).spec_lo().resource,
            final(self).spec_hi().resource == old(self).spec_hi().resource,
            final(self).spec_lp() == old(self).spec_lp(),
            final(self).spec_fee() == old(self).spec_fee(),
            ({
                let rin = old(self).spec_balance_of(input.resource);
                let rout = old(self).spec_balance_of(output_resource);
                let amt = input.amount@;
                let fee = old(self).spec_fee();
                let ids_ok = input.resource != output_resource && old(self).is_pool_resource(
                    input.resource,
                ) && old(self).is_pool_resource(output_resource);
                match r {
                    Ok(out) => {
                        &&& ids_ok
                        &&& rin > 0
                        &&& rout > 0
                        &&& swap_fits(rin, rout, amt, fee)
                        &&& out.resource == output_resource
                        &&& out.amount@ == swap_output(rin, rout, amt, fee)
                        &&& out.wf()
                        &&& final(self).spec_balance_of(input.resource) == rin + amt
                        &&& final(self).spec_balance_of(output_resource) == rout - swap_output(
                            rin,
                            rout,
                            amt,
                            fee,
                        )
                        &&& (amt == 0 ==> *final(self) == *old(self))
                    },
                    Err(e) => {
                        &&& *final(self) == *old(self)
                        &&& (e == PoolError::UnknownResource <==> !ids_ok)
                        &&& (e == PoolError::EmptyPool <==> ids_ok && (rin == 0 || rout == 0))
                        &&& (e == PoolError::ArithmeticFault <==> ids_ok && rin > 0 && rout > 0
                            && !swap_fits(rin, rout, amt, fee))
                        &&& (e is UnknownResource || e is EmptyPool || e is ArithmeticFault)
                    },
                }
            }),
    {
        // Resource validation: distinct, and both pooled here.
        if let Err(e) = self.check_pool_resources(input.resource, output_resource) {
            return Err(e);
        }
        let input_is_lo = input.resource.raw == self.lo.resource.raw;
        let rin = if input_is_lo {
            self.lo.balance
        } else {
            self.hi.balance
        };
        let rout = if input_is_lo {
            self.hi.balance
        } else {
            self.lo.balance
        };
        // The curve divides by a reservoir balance, so neither may be empty.
        if let Err(e) = Pool::check_non_empty(&rin) {
            return Err(e);
        }
        if let Err(e) = Pool::check_non_empty(&rout) {
            return Err(e);
        }
        proof {
            lemma_fee_part_bounds(input.amount@, self.spec_fee());
            lemma_mul_nonnegative(input.amount@, self.spec_fee());
            lemma_mul_nonnegative(rin@, rout@);
        }
        // Fee retained from the swapper, rounded down.
        let fee_numer = match input.amount.checked_mul(&Amount::new(self.fee as i64)) {
            Some(v) => v,
            None => {
                return Err(PoolError::ArithmeticFault);
            },
        };
        let fee_cut = fee_numer.checked_div(&Amount::new(1000)).unwrap();
        let eff = input.amount.checked_sub(&fee_cut).unwrap();
        // Constant product of the reservoirs before the swap.
        let k = match rin.checked_mul(&rout) {
            Some(v) => v,
            None => {
                return Err(PoolError::ArithmeticFault);
            },
        };
        // The full input is deposited, fee portion included.
        let committed_in = match rin.checked_add(&input.amount) {
            Some(v) => v,
            None => {
                return Err(PoolError::ArithmeticFault);
            },
        };
        let denom = rin.checked_add(&eff).unwrap();
        proof {
            lemma_curve_bounds(rin@, rout@, eff@);
        }
        let new_out = k.checked_div(&denom).unwrap();
        let out_amount = rout.checked_sub(&new_out).unwrap();
        proof {
            if input.amount@ == 0 {
                // The zero-quantity swap commits the very balances it read.
                lemma_div_of0(1000);
                lemma_div_multiples_vanish(rout@, rin@);
            }
        }
        // Commit the rebalanced reservoirs.
        if input_is_lo {
            self.lo.balance = committed_in;
            self.hi.balance = new_out;
        } else {
            self.hi.balance = committed_in;
            self.lo.balance = new_out;
        }
        Ok(Tokens { resource: output_resource, amount: out_amount })
    }

    /// The LP shares one side of a paired deposit earns, or `None` when the
    /// squared deposit leaves the representable range.
    fn side_shares(amount: Amount, balance: Amount) -> (r: Option<Amount>)
        requires
            amount@ >= 0,
            balance@ >= 0,
        ensures
            (balance@ == 0 || amount@ * amount@ <= i64::MAX) ==> (r matches Some(t) && t@
                == deposit_shares(amount@, balance@)),
            !(balance@ == 0 || amount@ * amount@ <= i64::MAX) ==> r is None,
    {
        if balance.is_zero() {
            Some(amount)
        } else {
            proof {
                lemma_mul_nonnegative(amount@, amount@);
            }
            match amount.checked_mul(&amount) {
                Some(squared) => Some(squared.checked_div(&balance).unwrap()),
                None => None,
            }
        }
    }

    /// Accepts a paired deposit of both pool assets and mints proportional
    /// LP shares through the external supply counter.
    ///
    /// Each side earns its deposit times its deposit-to-reservoir ratio,
    /// both taken against the balance before the deposit, with the division
    /// fused as `(amount * amount) / balance` so that sub-unit ratios still
    /// mint their proportional whole shares. An empty reservoir prices the
    /// deposit at par, so the first deposit sets the pool's price. On any
    /// error the pool and the ledger are unchanged.
    pub fn add_liquidity(&mut self, a: Tokens, b: Tokens, ledger: &mut SupplyLedger) -> (r: Result<
        Tokens,
        PoolError,
    >)
        requires
            old(self).wf(),
            a.wf(),
            b.wf(),
            old(ledger).wf(),
            old(ledger).spec_resource() == old(self).spec_lp(),
        ensures
            final(self).wf(),
            final(ledger).wf(),
            final(ledger).spec_resource() == old(ledger).spec_resource(),
            final(self).spec_lo().resource == old(self).spec_lo().resource,
            final(self).spec_hi().resource == old(self).spec_hi().resource,
            final(self).spec_lp() == old(self).spec_lp(),
            final(self).spec_fee() == old(self).spec_fee(),
            ({
                let a_bal = old(self).spec_balance_of(a.resource);
                let b_bal = old(self).spec_balance_of(b.resource);
                let minted = minted_shares(a.amount@, a_bal, b.amount@, b_bal);
                let ids_ok = a.resource != b.resource && old(self).is_pool_resource(a.resource)
                    && old(self).is_pool_resource(b.resource);
                let fits = add_fits(a.amount@, a_bal, b.amount@, b_bal, old(ledger).spec_total());
                match r {
                    Ok(lp) => {
                        &&& ids_ok
                        &&& fits
                        &&& lp.resource == old(self).spec_lp()
                        &&& lp.amount@ == minted
                        &&& lp.wf()
                        &&& final(self).spec_balance_of(a.resource) == a_bal + a.amount@
                        &&& final(self).spec_balance_of(b.resource) == b_bal + b.amount@
                        &&& final(ledger).spec_total() == old(ledger).spec_total() + minted
                    },
                    Err(e) => {
                        &&& *final(self) == *old(self)
                        &&& *final(ledger) == *old(ledger)
                        &&& (e == PoolError::UnknownResource <==> !ids_ok)
                        &&& (e == PoolError::ArithmeticFault <==> ids_ok && !fits)
                        &&& (e is UnknownResource || e is ArithmeticFault)
                    },
                }
            }),
    {
        // Resource validation: distinct, and both pooled here.
        if let Err(e) = self.check_pool_resources(a.resource, b.resource) {
            return Err(e);
        }
        let a_is_lo = a.resource.raw == self.lo.resource.raw;
        let a_bal = if a_is_lo {
            self.lo.balance
        } else {
            self.hi.balance
        };
        let b_bal = if a_is_lo {
            self.hi.balance
        } else {
            self.lo.balance
        };
        proof {
            lemma_deposit_shares_nonneg(a.amount@, a_bal@);
            lemma_deposit_shares_nonneg(b.amount@, b_bal@);
        }
        // Each side's shares, priced against the balance before the deposit.
        let a_term = match Pool::side_shares(a.amount, a_bal) {
            Some(v) => v,
            None => {
                return Err(PoolError::ArithmeticFault);
            },
        };
        let b_term = match Pool::side_shares(b.amount, b_bal) {
            Some(v) => v,
            None => {
                return Err(PoolError::ArithmeticFault);
            },
        };
        let minted = match a_term.checked_add(&b_term) {
            Some(v) => v,
            None => {
                return Err(PoolError::ArithmeticFault);
            },
        };
        let new_a_bal = match a_bal.checked_add(&a.amount) {
            Some(v) => v,
            None => {
                return Err(PoolError::ArithmeticFault);
            },
        };
        let new_b_bal = match b_bal.checked_add(&b.amount) {
            Some(v) => v,
            None => {
                return Err(PoolError::ArithmeticFault);
            },
        };
        // Mint the shares, then commit the deposits.
        let lp = match ledger.mint(minted) {
            Some(t) => t,
            None => {
                return Err(PoolError::ArithmeticFault);
            },
        };
        if a_is_lo {
            self.lo.balance = new_a_bal;
            self.hi.balance = new_b_bal;
        } else {
            self.hi.balance = new_a_bal;
            self.lo.balance = new_b_bal;
        }
        Ok(lp)
    }

    /// Redeems a container of LP shares for a proportional part of both
    /// reservoirs, burning the shares.
    ///
    /// Each side's payout is `ceil(lp * reservoir / totalSupply)`: rounding
    /// is toward the withdrawer, the opposite of a swap's rounding. The
    /// shares are burned only after both payouts are computed from the
    /// still-valid total supply. On any error the pool and the ledger are
    /// unchanged.
    pub fn remove_liquidity(&mut self, lp: Tokens, ledger: &mut SupplyLedger) -> (r: Result<
        (Tokens, Tokens),
        PoolError,
    >)
        requires
            old(self).wf(),
            lp.wf(),
            old(ledger).wf(),
            old(ledger).spec_resource() == old(self).spec_lp(),
        ensures
            final(self).wf(),
            final(ledger).wf(),
            final(ledger).spec_resource() == old(ledger).spec_resource(),
            final(self).spec_lo().resource == old(self).spec_lo().resource,
            final(self).spec_hi().resource == old(self).spec_hi().resource,
            final(self).spec_lp() == old(self).spec_lp(),
            final(self).spec_fee() == old(self).spec_fee(),
            ({
                let lo_bal = old(self).spec_lo().balance@;
                let hi_bal = old(self).spec_hi().balance@;
                let supply = old(ledger).spec_total();
                let id_ok = lp.resource == old(self).spec_lp();
                let covered = lp.amount@ <= supply;
                let fits = remove_fits(lp.amount@, lo_bal, hi_bal);
                match r {
                    Ok(out) => {
                        &&& id_ok
                        &&& supply > 0
                        &&& covered
                        &&& fits
                        &&& out.0.resource == old(self).spec_lo().resource
                        &&& out.0.amount@ == withdrawal_share(lp.amount@, lo_bal, supply)
                        &&& out.0.wf()
                        &&& out.1.resource == old(self).spec_hi().resource
                        &&& out.1.amount@ == withdrawal_share(lp.amount@, hi_bal, supply)
                        &&& out.1.wf()
                        &&& final(self).spec_lo().balance@ == lo_bal - withdrawal_share(
                            lp.amount@,
                            lo_bal,
                            supply,
                        )
                        &&& final(self).spec_hi().balance@ == hi_bal - withdrawal_share(
                            lp.amount@,
                            hi_bal,
                            supply,
                        )
                        &&& final(ledger).spec_total() == supply - lp.amount@
                    },
                    Err(e) => {
                        &&& *final(self) == *old(self)
                        &&& *final(ledger) == *old(ledger)
                        &&& (e == PoolError::InvalidLpToken <==> !id_ok)
                        &&& (e == PoolError::ArithmeticFault <==> id_ok && (supply == 0 || (covered
                            && !fits)))
                        &&& (e == PoolError::InsufficientReservoir <==> id_ok && supply > 0
                            && !covered)
                        &&& (e is InvalidLpToken || e is ArithmeticFault
                            || e is InsufficientReservoir)
                    },
                }
            }),
    {
        // Only this pool's LP share resource can be redeemed.
        if lp.resource.raw != self.lp_resource.raw {
            return Err(PoolError::InvalidLpToken);
        }
        // The share computation divides by the total supply: fail fast
        // rather than divide by zero.
        let supply = ledger.total_supply();
        if supply.is_zero() {
            return Err(PoolError::ArithmeticFault);
        }
        // More shares than were ever minted cannot be covered.
        if lp.amount.value() > supply.value() {
            return Err(PoolError::InsufficientReservoir);
        }
        proof {
            lemma_mul_nonnegative(lp.amount@, self.spec_lo().balance@);
            lemma_mul_nonnegative(lp.amount@, self.spec_hi().balance@);
        }
        let lo_numer = match lp.amount.checked_mul(&self.lo.balance) {
            Some(v) => v,
            None => {
                return Err(PoolError::ArithmeticFault);
            },
        };
        let hi_numer = match lp.amount.checked_mul(&self.hi.balance) {
            Some(v) => v,
            None => {
                return Err(PoolError::ArithmeticFault);
            },
        };
        proof {
            lemma_withdrawal_share_bounds(lp.amount@, self.spec_lo().balance@, supply@);
            lemma_withdrawal_share_bounds(lp.amount@, self.spec_hi().balance@, supply@);
        }
        let lo_pay = lo_numer.checked_div_ceil(&supply).unwrap();
        let hi_pay = hi_numer.checked_div_ceil(&supply).unwrap();
        // Burn the redeemed shares, then pay out of both reservoirs.
        ledger.burn(lp);
        self.lo.balance = self.lo.balance.checked_sub(&lo_pay).unwrap();
        self.hi.balance = self.hi.balance.checked_sub(&hi_pay).unwrap();
        Ok(
            (
                Tokens { resource: self.lo.resource, amount: lo_pay },
                Tokens { resource: self.hi.resource, amount: hi_pay },
            ),
        )
    }
}

} // verus!
