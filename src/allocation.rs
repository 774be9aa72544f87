//! The allocation arithmetic: how much of an incoming amount goes to the
//! token purchase, how the rest is split between weighted destinations, and
//! how many tokens a fixed price buys.
use vstd::prelude::*;
use vstd::arithmetic::div_mod::{
    lemma_div_is_ordered,
    lemma_div_multiples_vanish,
    lemma_fundamental_div_mod,
    lemma_mod_bound,
};
use crate::errors::ErrorCode;

verus! {

/// Purchase proportions are fixed-point fractions in millionths:
/// `PROPORTION_SCALE` stands for the whole amount.
pub const PROPORTION_SCALE: u32 = 1_000_000;

/// Destination weights are integer percentages; a full set sums to this.
pub const WEIGHT_TOTAL: u64 = 100;

/// The part of `amount` earmarked for purchase: `floor(amount * proportion)`.
pub open spec fn purchase_share(amount: int, proportion: int) -> int {
    amount * proportion / (PROPORTION_SCALE as int)
}

/// What a destination of weight `weight` receives out of `total`.
pub open spec fn weighted_share(total: int, weight: int) -> int {
    total * weight / (WEIGHT_TOTAL as int)
}

/// The sum of a set of weights.
pub open spec fn weight_sum(weights: Seq<u8>) -> int
    decreases weights.len(),
{
    if weights.len() == 0 {
        0
    } else {
        weight_sum(weights.drop_last()) + weights.last()
    }
}

/// The sum of the shares of all destinations.
pub open spec fn routed_total(total: int, weights: Seq<u8>) -> int
    decreases weights.len(),
{
    if weights.len() == 0 {
        0
    } else {
        routed_total(total, weights.drop_last()) + weighted_share(total, weights.last() as int)
    }
}

/// An incoming amount split into the value used for the purchase and the
/// remainder that is forwarded.
#[derive(Debug, Clone, Copy, PartialEq, Eq, Structural)]
pub struct PurchaseSplit {
    pub purchase_value: u64,
    pub remainder: u64,
}

/// Splits `incoming_amount` by `purchase_proportion` (in millionths):
/// the purchase value is rounded down and the remainder takes the rest.
pub fn split_purchase(incoming_amount: u64, purchase_proportion: u32) -> (r: PurchaseSplit)
    requires
        purchase_proportion <= PROPORTION_SCALE,
    ensures
        r.purchase_value == purchase_share(incoming_amount as int, purchase_proportion as int),
        r.purchase_value + r.remainder == incoming_amount,
{
    let amount = incoming_amount as u128;
    let proportion = purchase_proportion as u128;
    proof {
        assert(amount * (PROPORTION_SCALE as u128) <= 0xffff_ffff_ffff_ffff * 1_000_000)
            by (nonlinear_arith)
            requires
                amount <= 0xffff_ffff_ffff_ffff,
        ;
        assert(amount * proportion <= amount * (PROPORTION_SCALE as u128)) by (nonlinear_arith)
            requires
                proportion <= PROPORTION_SCALE as u128,
        ;
        lemma_div_is_ordered(
            (amount * proportion) as int,
            (amount * (PROPORTION_SCALE as u128)) as int,
            PROPORTION_SCALE as int,
        );
        lemma_div_multiples_vanish(amount as int, PROPORTION_SCALE as int);
    }
    let product: u128 = amount * proportion;
    let purchase_value = (product / (PROPORTION_SCALE as u128)) as u64;
    PurchaseSplit { purchase_value, remainder: incoming_amount - purchase_value }
}

proof fn lemma_weight_sum_prefix(weights: Seq<u8>, i: int)
    requires
        0 <= i <= weights.len(),
    ensures
        weight_sum(weights.take(i)) <= weight_sum(weights),
    decreases weights.len(),
{
    if i < weights.len() {
        assert(weights.drop_last().take(i) == weights.take(i));
        lemma_weight_sum_prefix(weights.drop_last(), i);
    } else {
        assert(weights.take(i) == weights);
    }
}

/// Accepts a set of destination weights only when they sum to one hundred.
pub fn check_proportions(spend_proportions: &[u8]) -> (r: Result<(), ErrorCode>)
    ensures
        r is Ok <==> weight_sum(spend_proportions@) == WEIGHT_TOTAL,
        r is Err ==> r == Err::<(), ErrorCode>(ErrorCode::InvalidProportions),
{
    let mut sum: u64 = 0;
    let mut i: usize = 0;
    while i < spend_proportions.len()
        invariant
            0 <= i <= spend_proportions@.len(),
            sum == weight_sum(spend_proportions@.take(i as int)),
            sum <= WEIGHT_TOTAL,
        decreases spend_proportions@.len() - i,
    {
        assert(spend_proportions@.take(i + 1).drop_last() == spend_proportions@.take(i as int));
        sum = sum + spend_proportions[i] as u64;
        i = i + 1;
        if sum > WEIGHT_TOTAL {
            proof {
                lemma_weight_sum_prefix(spend_proportions@, i as int);
            }
            return Err(ErrorCode::InvalidProportions);
        }
    }
    assert(spend_proportions@.take(i as int) == spend_proportions@);
    if sum != WEIGHT_TOTAL {
        return Err(ErrorCode::InvalidProportions);
    }
    Ok(())
}

/// The amount each destination receives out of `total`, position by
/// position: `floor(total * weight / 100)`. Rounding residue is not
/// redistributed.
pub fn route_amounts(total: u64, weights: &Vec<u8>) -> (r: Vec<u64>)
    requires
        forall|i: int| 0 <= i < weights@.len() ==> weights@[i] <= WEIGHT_TOTAL,
    ensures
        r@.len() == weights@.len(),
        forall|i: int|
            0 <= i < r@.len() ==> r@[i] == weighted_share(total as int, weights@[i] as int),
{
    let mut amounts: Vec<u64> = Vec::new();
    let mut i: usize = 0;
    while i < weights.len()
        invariant
            0 <= i <= weights@.len(),
            amounts@.len() == i,
            forall|j: int| 0 <= j < weights@.len() ==> weights@[j] <= WEIGHT_TOTAL,
            forall|j: int|
                0 <= j < i ==> amounts@[j] == weighted_share(total as int, weights@[j] as int),
        decreases weights@.len() - i,
    {
        let weight = weights[i] as u128;
        let t = total as u128;
        proof {
            assert(t * (WEIGHT_TOTAL as u128) <= 0xffff_ffff_ffff_ffff * 100) by (nonlinear_arith)
                requires
                    t <= 0xffff_ffff_ffff_ffff,
            ;
            assert(t * weight <= t * (WEIGHT_TOTAL as u128)) by (nonlinear_arith)
                requires
                    weight <= WEIGHT_TOTAL as u128,
            ;
            lemma_div_is_ordered(
                (t * weight) as int,
                (t * (WEIGHT_TOTAL as u128)) as int,
                WEIGHT_TOTAL as int,
            );
            lemma_div_multiples_vanish(t as int, WEIGHT_TOTAL as int);
        }
        let share = (t * weight / (WEIGHT_TOTAL as u128)) as u64;
        amounts.push(share);
        i = i + 1;
    }
    amounts
}

/// The sum of a sequence of amounts.
pub open spec fn amount_sum(amounts: Seq<u64>) -> int
    decreases amounts.len(),
{
    if amounts.len() == 0 {
        0
    } else {
        amount_sum(amounts.drop_last()) + amounts.last()
    }
}

proof fn lemma_routed_bounds(total: int, weights: Seq<u8>)
    requires
        total >= 0,
    ensures
        WEIGHT_TOTAL * routed_total(total, weights) <= total * weight_sum(weights),
        total * weight_sum(weights) - WEIGHT_TOTAL * routed_total(total, weights) <= 99
            * weights.len(),
    decreases weights.len(),
{
    if weights.len() > 0 {
        let rest = weights.drop_last();
        let w = weights.last() as int;
        lemma_routed_bounds(total, rest);
        lemma_fundamental_div_mod(total * w, WEIGHT_TOTAL as int);
        lemma_mod_bound(total * w, WEIGHT_TOTAL as int);
        assert(total * weight_sum(weights) == total * weight_sum(rest) + total * w)
            by (nonlinear_arith)
            requires
                weight_sum(weights) == weight_sum(rest) + w,
        ;
    }
}

/// Routing never hands out more than the total, and the residue left behind
/// by rounding down is smaller than the number of destinations.
pub proof fn lemma_routing_residue(total: u64, weights: Seq<u8>)
    requires
        weight_sum(weights) == WEIGHT_TOTAL,
    ensures
        0 <= total - routed_total(total as int, weights) < weights.len(),
{
    lemma_routed_bounds(total as int, weights);
    if weights.len() == 0 {
        assert(weight_sum(weights) == 0);
    }
}

/// The sum of the amounts that `route_amounts` hands out is the routed total.
pub proof fn lemma_route_amounts_total(total: u64, weights: Seq<u8>, amounts: Seq<u64>)
    requires
        amounts.len() == weights.len(),
        forall|i: int|
            0 <= i < amounts.len() ==> amounts[i] == weighted_share(total as int, weights[i] as int),
    ensures
        amount_sum(amounts) == routed_total(total as int, weights),
    decreases weights.len(),
{
    if weights.len() > 0 {
        lemma_route_amounts_total(total, weights.drop_last(), amounts.drop_last());
    }
}

/// Tokens bought at a fixed price: `floor(token_amount / price)`. A zero
/// price is a division by zero.
pub fn fixed_burn_amount(token_amount: u64, price: u64) -> (r: Result<u64, ErrorCode>)
    ensures
        price == 0 ==> r == Err::<u64, ErrorCode>(ErrorCode::CalculationFailure),
        price != 0 ==> r == Ok::<u64, ErrorCode>(token_amount / price),
{
    if price == 0 {
        return Err(ErrorCode::CalculationFailure);
    }
    Ok(token_amount / price)
}

} // verus!
