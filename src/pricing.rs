use vstd::arithmetic::div_mod::lemma_div_is_ordered;
use vstd::prelude::*;

verus! {

/// Liquidity added to each side's share count before dividing.
pub const BASE_LIQUIDITY: u64 = 1000;

/// Largest move away from the midpoint that one trade can cause.
pub const MAX_IMPACT: u64 = 450;

/// The midpoint price, in thousandths of a unit of probability.
pub const MID_PRICE: u64 = 500;

/// How far a purchase of `amount` moves the price, against `shares` already
/// held on the side bought: `amount * 1000 / (1000 + shares)`, capped.
pub open spec fn price_impact(shares: int, amount: int) -> int {
    let raw = amount * 1000 / (BASE_LIQUIDITY + shares);
    if raw < MAX_IMPACT {
        raw
    } else {
        MAX_IMPACT as int
    }
}

/// The executed price of a purchase, in thousandths.
pub open spec fn price_of(yes_shares: int, no_shares: int, buy_yes: bool, amount: int) -> int {
    if buy_yes {
        MID_PRICE + price_impact(yes_shares, amount)
    } else {
        MID_PRICE - price_impact(no_shares, amount)
    }
}

/// Distance of a price from the midpoint.
pub open spec fn distance_from_mid(price: int) -> int {
    if price >= MID_PRICE {
        price - MID_PRICE
    } else {
        MID_PRICE - price
    }
}

/// Prices the purchase of `amount` shares on one side of a market holding
/// `yes_shares` and `no_shares`, before the purchase is applied.
pub fn calculate_price(yes_shares: u64, no_shares: u64, buy_yes: bool, amount: u64) -> (r: u64)
    ensures
        r == price_of(yes_shares as int, no_shares as int, buy_yes, amount as int),
        50 <= r <= 950,
{
    let shares = if buy_yes {
        yes_shares
    } else {
        no_shares
    };
    let divisor: u128 = BASE_LIQUIDITY as u128 + shares as u128;
    let raw: u128 = (amount as u128 * 1000) / divisor;
    let impact: u64 = if raw < MAX_IMPACT as u128 {
        raw as u64
    } else {
        MAX_IMPACT
    };
    assert(impact == price_impact(shares as int, amount as int));
    if buy_yes {
        MID_PRICE + impact
    } else {
        MID_PRICE - impact
    }
}

/// Every price lies between 50 and 950 inclusive, whatever the share counts,
/// side and amount.
pub proof fn lemma_price_bounds(yes_shares: nat, no_shares: nat, buy_yes: bool, amount: nat)
    ensures
        50 <= price_of(yes_shares as int, no_shares as int, buy_yes, amount as int) <= 950,
{
    let shares: int = if buy_yes { yes_shares as int } else { no_shares as int };
    let n: int = amount as int * 1000;
    assert(n / (BASE_LIQUIDITY + shares) >= 0) by (nonlinear_arith)
        requires
            n >= 0,
            shares >= 0,
    ;
}

/// With the share counts and side fixed, a larger purchase never moves the
/// price less far from the midpoint; once the cap is reached, larger
/// purchases give the same price.
pub proof fn lemma_price_monotone(
    yes_shares: nat,
    no_shares: nat,
    buy_yes: bool,
    smaller: nat,
    larger: nat,
)
    requires
        smaller <= larger,
    ensures
        distance_from_mid(price_of(yes_shares as int, no_shares as int, buy_yes, smaller as int))
            <= distance_from_mid(
            price_of(yes_shares as int, no_shares as int, buy_yes, larger as int),
        ),
        ({
            let shares = if buy_yes { yes_shares } else { no_shares };
            price_impact(shares as int, smaller as int) == MAX_IMPACT ==> price_of(
                yes_shares as int,
                no_shares as int,
                buy_yes,
                larger as int,
            ) == price_of(yes_shares as int, no_shares as int, buy_yes, smaller as int)
        }),
{
    let shares: int = if buy_yes { yes_shares as int } else { no_shares as int };
    let d: int = BASE_LIQUIDITY + shares;
    let lo: int = smaller as int * 1000;
    let hi: int = larger as int * 1000;
    assert(lo <= hi) by (nonlinear_arith)
        requires
            smaller <= larger,
            lo == smaller as int * 1000,
            hi == larger as int * 1000,
    ;
    lemma_div_is_ordered(lo, hi, d);
    assert(lo / d >= 0) by (nonlinear_arith)
        requires
            d > 0,
            lo >= 0,
    ;
}

} // verus!
