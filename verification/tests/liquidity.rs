//! Liquidity-engine tests: deposit pricing, LP share accounting, and
//! proportional withdrawal.

use swap_pool::amount::Amount;
use swap_pool::pool::{Pool, PoolError, ResourceId, ResourceKind, SupplyLedger, Tokens};

fn rid(raw: u64) -> ResourceId {
    ResourceId { raw }
}

fn empty_pool() -> (Pool, SupplyLedger) {
    let pool = Pool::new(
        rid(1),
        ResourceKind::Fungible,
        rid(2),
        ResourceKind::Fungible,
        rid(9),
        0,
    )
    .unwrap();
    (pool, SupplyLedger::new(rid(9)))
}

#[test]
fn first_deposit_sets_the_price() {
    // An empty pool prices the deposit at par on both sides: (500, 1000)
    // mints 1500 shares and establishes the 1:2 price.
    let (mut pool, mut ledger) = empty_pool();
    let lp = pool
        .add_liquidity(
            Tokens::new(rid(1), Amount::new(500)),
            Tokens::new(rid(2), Amount::new(1000)),
            &mut ledger,
        )
        .unwrap();
    assert_eq!(lp.resource, rid(9));
    assert_eq!(lp.amount.value(), 1500);
    assert_eq!(pool.get_pool_balance(rid(1)).unwrap().value(), 500);
    assert_eq!(pool.get_pool_balance(rid(2)).unwrap().value(), 1000);
    assert_eq!(ledger.total_supply().value(), 1500);

    // A follow-up deposit at the same 1:2 ratio mints proportionally:
    // each side earns floor(amount^2 / balance), here 2500 / 500 = 5 and
    // 10000 / 1000 = 10, fifteen shares with no rounding loss.
    let lp2 = pool
        .add_liquidity(
            Tokens::new(rid(1), Amount::new(50)),
            Tokens::new(rid(2), Amount::new(100)),
            &mut ledger,
        )
        .unwrap();
    assert_eq!(lp2.amount.value(), 15);
    assert_eq!(pool.get_pool_balance(rid(1)).unwrap().value(), 550);
    assert_eq!(pool.get_pool_balance(rid(2)).unwrap().value(), 1100);
    assert_eq!(ledger.total_supply().value(), 1515);
}

#[test]
fn deposit_shares_round_down_at_whole_shares() {
    // Sub-share remainders are floored once, per side: on (500, 1000) a
    // deposit of (70, 130) earns floor(4900/500) = 9 and
    // floor(16900/1000) = 16.
    let (mut pool, mut ledger) = empty_pool();
    pool.add_liquidity(
        Tokens::new(rid(1), Amount::new(500)),
        Tokens::new(rid(2), Amount::new(1000)),
        &mut ledger,
    )
    .unwrap();
    let lp = pool
        .add_liquidity(
            Tokens::new(rid(1), Amount::new(70)),
            Tokens::new(rid(2), Amount::new(130)),
            &mut ledger,
        )
        .unwrap();
    assert_eq!(lp.amount.value(), 25);
    assert_eq!(ledger.total_supply().value(), 1525);
}

#[test]
fn deposit_order_is_irrelevant() {
    let (mut pool, mut ledger) = empty_pool();
    let lp = pool
        .add_liquidity(
            Tokens::new(rid(2), Amount::new(1000)),
            Tokens::new(rid(1), Amount::new(500)),
            &mut ledger,
        )
        .unwrap();
    assert_eq!(lp.amount.value(), 1500);
    assert_eq!(pool.get_pool_balance(rid(1)).unwrap().value(), 500);
    assert_eq!(pool.get_pool_balance(rid(2)).unwrap().value(), 1000);
}

#[test]
fn add_liquidity_rejects_foreign_or_repeated_resources() {
    let (mut pool, mut ledger) = empty_pool();
    assert_eq!(
        pool.add_liquidity(
            Tokens::new(rid(1), Amount::new(5)),
            Tokens::new(rid(1), Amount::new(5)),
            &mut ledger,
        )
        .unwrap_err(),
        PoolError::UnknownResource
    );
    assert_eq!(
        pool.add_liquidity(
            Tokens::new(rid(1), Amount::new(5)),
            Tokens::new(rid(3), Amount::new(5)),
            &mut ledger,
        )
        .unwrap_err(),
        PoolError::UnknownResource
    );
    assert_eq!(ledger.total_supply().value(), 0);
}

#[test]
fn add_liquidity_surfaces_overflow_as_arithmetic_fault() {
    // A first deposit is priced at par on both sides; making the deposits
    // themselves near the representable maximum overflows the share sum.
    let (mut pool, mut ledger) = empty_pool();
    let huge = i64::MAX / 2 + 1;
    pool.add_liquidity(
        Tokens::new(rid(1), Amount::new(huge)),
        Tokens::new(rid(2), Amount::new(huge)),
        &mut ledger,
    )
    .unwrap_err();
    assert_eq!(ledger.total_supply().value(), 0);
}

#[test]
fn round_trip_on_fresh_pool_returns_deposit_exactly() {
    // Deposit (a, b) into an empty pool, then redeem every minted share:
    // exactly (a, b) comes back and the pool is empty again.
    let (mut pool, mut ledger) = empty_pool();
    let lp = pool
        .add_liquidity(
            Tokens::new(rid(1), Amount::new(321)),
            Tokens::new(rid(2), Amount::new(4567)),
            &mut ledger,
        )
        .unwrap();
    assert_eq!(lp.amount.value(), 321 + 4567);
    let (out_a, out_b) = pool.remove_liquidity(lp, &mut ledger).unwrap();
    assert_eq!(out_a.resource, rid(1));
    assert_eq!(out_a.amount.value(), 321);
    assert_eq!(out_b.resource, rid(2));
    assert_eq!(out_b.amount.value(), 4567);
    assert_eq!(pool.get_pool_balance(rid(1)).unwrap().value(), 0);
    assert_eq!(pool.get_pool_balance(rid(2)).unwrap().value(), 0);
    assert_eq!(ledger.total_supply().value(), 0);
}

#[test]
fn repeated_partial_withdrawals_never_overdraw() {
    // Redeem the whole supply in fifteen pieces. The rounding favours each
    // withdrawer, but the payouts summed over the history equal the
    // reservoirs exactly and never exceed them.
    let (mut pool, mut ledger) = empty_pool();
    pool.add_liquidity(
        Tokens::new(rid(1), Amount::new(500)),
        Tokens::new(rid(2), Amount::new(1000)),
        &mut ledger,
    )
    .unwrap();
    let mut total_a: i64 = 0;
    let mut total_b: i64 = 0;
    for _ in 0..15 {
        let (out_a, out_b) = pool
            .remove_liquidity(Tokens::new(rid(9), Amount::new(100)), &mut ledger)
            .unwrap();
        total_a += out_a.amount.value();
        total_b += out_b.amount.value();
        assert!(total_a <= 500);
        assert!(total_b <= 1000);
    }
    assert_eq!(total_a, 500);
    assert_eq!(total_b, 1000);
    assert_eq!(pool.get_pool_balance(rid(1)).unwrap().value(), 0);
    assert_eq!(pool.get_pool_balance(rid(2)).unwrap().value(), 0);
    assert_eq!(ledger.total_supply().value(), 0);
}

#[test]
fn partial_withdrawal_rounds_in_withdrawers_favour() {
    // 100 of 1500 shares against reservoirs 500/1000: the exact shares are
    // 33.33 and 66.67, paid as 34 and 67.
    let (mut pool, mut ledger) = empty_pool();
    pool.add_liquidity(
        Tokens::new(rid(1), Amount::new(500)),
        Tokens::new(rid(2), Amount::new(1000)),
        &mut ledger,
    )
    .unwrap();
    let (out_a, out_b) = pool
        .remove_liquidity(Tokens::new(rid(9), Amount::new(100)), &mut ledger)
        .unwrap();
    assert_eq!(out_a.amount.value(), 34);
    assert_eq!(out_b.amount.value(), 67);
    assert_eq!(pool.get_pool_balance(rid(1)).unwrap().value(), 466);
    assert_eq!(pool.get_pool_balance(rid(2)).unwrap().value(), 933);
    assert_eq!(ledger.total_supply().value(), 1400);
}

#[test]
fn remove_liquidity_rejects_wrong_share_resource() {
    let (mut pool, mut ledger) = empty_pool();
    pool.add_liquidity(
        Tokens::new(rid(1), Amount::new(10)),
        Tokens::new(rid(2), Amount::new(10)),
        &mut ledger,
    )
    .unwrap();
    assert_eq!(
        pool.remove_liquidity(Tokens::new(rid(1), Amount::new(10)), &mut ledger)
            .unwrap_err(),
        PoolError::InvalidLpToken
    );
}

#[test]
fn remove_liquidity_fails_fast_on_zero_supply() {
    // With nothing minted the share computation would divide by zero; the
    // call fails instead of paying a default.
    let (mut pool, mut ledger) = empty_pool();
    assert_eq!(
        pool.remove_liquidity(Tokens::new(rid(9), Amount::zero()), &mut ledger)
            .unwrap_err(),
        PoolError::ArithmeticFault
    );
}

#[test]
fn remove_liquidity_rejects_uncovered_shares() {
    let (mut pool, mut ledger) = empty_pool();
    pool.add_liquidity(
        Tokens::new(rid(1), Amount::new(10)),
        Tokens::new(rid(2), Amount::new(10)),
        &mut ledger,
    )
    .unwrap();
    assert_eq!(
        pool.remove_liquidity(Tokens::new(rid(9), Amount::new(21)), &mut ledger)
            .unwrap_err(),
        PoolError::InsufficientReservoir
    );
    assert_eq!(ledger.total_supply().value(), 20);
    assert_eq!(pool.get_pool_balance(rid(1)).unwrap().value(), 10);
}
