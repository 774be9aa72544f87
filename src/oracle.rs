//! Price validation and conversion: readings of two external feeds are
//! checked for staleness and confidence, composed into an exchange rate, and
//! used to turn a purchase value into token minor units, all in exact
//! integer arithmetic.
use vstd::prelude::*;
use crate::errors::ErrorCode;

verus! {

/// A reading's error bound may not exceed `CONFIDENCE_MANTISSA / 10^CONFIDENCE_SCALE`.
pub const CONFIDENCE_MANTISSA: i128 = 80;

/// Scale of the confidence tolerance.
pub const CONFIDENCE_SCALE: u32 = 2;

/// `10^e`.
pub open spec fn pow10(e: nat) -> nat
    decreases e,
{
    if e == 0 {
        1
    } else {
        10 * pow10((e - 1) as nat)
    }
}

/// A decimal number `mantissa / 10^scale`.
#[derive(Debug, Clone, Copy, PartialEq, Eq, Structural)]
pub struct Decimal {
    pub mantissa: i128,
    pub scale: u32,
}

/// One reading of a price feed, as published: the price, its error bound,
/// and the time (in seconds) at which the round that produced it opened.
#[derive(Debug, Clone, Copy, PartialEq, Eq, Structural)]
pub struct PriceReading {
    pub price: Decimal,
    pub std_deviation: Decimal,
    pub timestamp: i64,
}

/// The price of the target token over the price of the base currency, both
/// quoted in the same unit: the rate is `token_price / base_price`.
#[derive(Debug, Clone, Copy, PartialEq, Eq, Structural)]
pub struct Rate {
    pub token_price: Decimal,
    pub base_price: Decimal,
}

impl Rate {
    /// The base price, the rate's denominator, is positive.
    pub open spec fn wf(self) -> bool {
        self.base_price.mantissa > 0
    }
}

/// The reading is older than `max_staleness` seconds at time `now`.
pub open spec fn is_stale(reading: PriceReading, now: i64, max_staleness: u64) -> bool {
    now - reading.timestamp > max_staleness
}

/// The error bound exceeds the confidence tolerance.
pub open spec fn exceeds_confidence(std_deviation: Decimal) -> bool {
    std_deviation.mantissa * pow10(CONFIDENCE_SCALE as nat) > CONFIDENCE_MANTISSA * pow10(
        std_deviation.scale as nat,
    )
}

/// What validating a reading gives: staleness first, then confidence.
pub open spec fn reading_outcome(reading: PriceReading, now: i64, max_staleness: u64) -> Result<
    Decimal,
    ErrorCode,
> {
    if is_stale(reading, now, max_staleness) {
        Err(ErrorCode::StaleFeed)
    } else if exceeds_confidence(reading.std_deviation) {
        Err(ErrorCode::LowConfidence)
    } else {
        Ok(reading.price)
    }
}

/// What composing the two feeds gives: the base feed is checked first, then
/// the token feed; a base price of zero or below, the rate's denominator,
/// is a `CalculationFailure`.
pub open spec fn rate_outcome(
    base_feed: PriceReading,
    token_feed: PriceReading,
    now: i64,
    max_staleness: u64,
) -> Result<Rate, ErrorCode> {
    match reading_outcome(base_feed, now, max_staleness) {
        Err(e) => Err(e),
        Ok(base_price) => match reading_outcome(token_feed, now, max_staleness) {
            Err(e) => Err(e),
            Ok(token_price) => if base_price.mantissa <= 0 {
                Err(ErrorCode::CalculationFailure)
            } else {
                Ok(Rate { token_price, base_price })
            },
        },
    }
}

proof fn lemma_pow10_positive(e: nat)
    ensures
        pow10(e) >= 1,
    decreases e,
{
    if e > 0 {
        lemma_pow10_positive((e - 1) as nat);
    }
}

proof fn lemma_pow10_monotone(a: nat, b: nat)
    requires
        a <= b,
    ensures
        pow10(a) <= pow10(b),
    decreases b,
{
    if a < b {
        lemma_pow10_monotone(a, (b - 1) as nat);
        lemma_pow10_positive((b - 1) as nat);
    }
}

/// `10^e` in a `u128`, or `None` where it does not fit.
fn checked_pow10(e: u32) -> (r: Option<u128>)
    ensures
        r matches Some(v) ==> v == pow10(e as nat),
        r is None ==> pow10(e as nat) > u128::MAX,
{
    let mut acc: u128 = 1;
    let mut i: u32 = 0;
    while i < e
        invariant
            0 <= i <= e,
            acc == pow10(i as nat),
        decreases e - i,
    {
        match acc.checked_mul(10) {
            Some(next) => {
                acc = next;
                i = i + 1;
            },
            None => {
                proof {
                    lemma_pow10_monotone((i + 1) as nat, e as nat);
                }
                return None;
            },
        }
    }
    Some(acc)
}

/// Multiplies two factors of at least one, each given with the value it
/// stands for; `None` stands for a value that does not fit in a `u128`.
fn checked_product(a: Option<u128>, b: Option<u128>, Ghost(va): Ghost<int>, Ghost(vb): Ghost<int>) -> (r: Option<u128>)
    requires
        va >= 1,
        vb >= 1,
        a matches Some(x) ==> x == va,
        a is None ==> va > u128::MAX,
        b matches Some(y) ==> y == vb,
        b is None ==> vb > u128::MAX,
    ensures
        r matches Some(z) ==> z == va * vb,
        r is None ==> va * vb > u128::MAX,
{
    proof {
        assert(va * vb >= va && va * vb >= vb) by (nonlinear_arith)
            requires
                va >= 1,
                vb >= 1,
        ;
    }
    match (a, b) {
        (Some(x), Some(y)) => x.checked_mul(y),
        _ => None,
    }
}

/// Checks one reading: `StaleFeed` when it is older than `max_staleness`
/// seconds at `now`, `LowConfidence` when its error bound exceeds the
/// tolerance. Gives the price otherwise.
pub fn get_price_from_feed(reading: &PriceReading, now: i64, max_staleness: u64) -> (r: Result<
    Decimal,
    ErrorCode,
>)
    ensures
        r == reading_outcome(*reading, now, max_staleness),
{
    let age: i128 = now as i128 - reading.timestamp as i128;
    if age > max_staleness as i128 {
        return Err(ErrorCode::StaleFeed);
    }
    if exceeds_tolerance(reading.std_deviation) {
        return Err(ErrorCode::LowConfidence);
    }
    Ok(reading.price)
}

/// Compares an error bound with the tolerance exactly, at any scale.
fn exceeds_tolerance(sd: Decimal) -> (r: bool)
    ensures
        r == exceeds_confidence(sd),
{
    let m = sd.mantissa;
    let s = sd.scale;
    proof {
        reveal_with_fuel(pow10, 3);
    }
    if s == 0 {
        m > 0
    } else if s == 1 {
        m > 8
    } else {
        let ghost q = pow10((s - 2) as nat) as int;
        proof {
            assert(pow10(s as nat) == 100 * pow10((s - 2) as nat));
            assert(m * 100 > 80 * (100 * q) <==> m > 80 * q) by (nonlinear_arith);
        }
        match checked_pow10(s - 2) {
            Some(v) => {
                if v > (i128::MAX / 80) as u128 {
                    proof {
                        assert(80 * q > i128::MAX) by (nonlinear_arith)
                            requires
                                q == v,
                                v > i128::MAX / 80,
                        ;
                    }
                    false
                } else {
                    let limit: i128 = 80 * (v as i128);
                    m > limit
                }
            },
            None => {
                proof {
                    assert(80 * q > i128::MAX) by (nonlinear_arith)
                        requires
                            q > u128::MAX,
                    ;
                }
                false
            },
        }
    }
}

/// Validates both feeds (the base currency's first) and composes them into
/// the rate `token_price / base_price`.
pub fn get_latest_price(
    base_feed: &PriceReading,
    token_feed: &PriceReading,
    now: i64,
    max_staleness: u64,
) -> (r: Result<Rate, ErrorCode>)
    ensures
        r == rate_outcome(*base_feed, *token_feed, now, max_staleness),
        r matches Ok(rate) ==> rate.wf(),
{
    let base_price = get_price_from_feed(base_feed, now, max_staleness)?;
    let token_price = get_price_from_feed(token_feed, now, max_staleness)?;
    if base_price.mantissa <= 0 {
        return Err(ErrorCode::CalculationFailure);
    }
    Ok(Rate { token_price, base_price })
}

/// How many decimal places the token's minor unit has beyond the base
/// currency's, and the reverse; one of the two is zero.
pub open spec fn decimal_shift_up(base_decimals: u8, token_decimals: u8) -> nat {
    if token_decimals > base_decimals {
        (token_decimals - base_decimals) as nat
    } else {
        0
    }
}

/// See `decimal_shift_up`.
pub open spec fn decimal_shift_down(base_decimals: u8, token_decimals: u8) -> nat {
    if base_decimals > token_decimals {
        (base_decimals - token_decimals) as nat
    } else {
        0
    }
}

/// Numerator of `purchase_value / (10^(base_decimals - token_decimals) * rate)`
/// written over integers.
pub open spec fn conversion_numerator(
    purchase_value: u64,
    rate: Rate,
    base_decimals: u8,
    token_decimals: u8,
) -> int {
    purchase_value * rate.base_price.mantissa * pow10(rate.token_price.scale as nat) * pow10(
        decimal_shift_up(base_decimals, token_decimals),
    )
}

/// Denominator of the same fraction.
pub open spec fn conversion_denominator(rate: Rate, base_decimals: u8, token_decimals: u8) -> int {
    rate.token_price.mantissa * pow10(rate.base_price.scale as nat) * pow10(
        decimal_shift_down(base_decimals, token_decimals),
    )
}

/// The token amount, in minor units, that a purchase value buys:
/// `floor(purchase_value / (10^(base_decimals - token_decimals) * rate))`.
pub open spec fn tokens_for_purchase(
    purchase_value: u64,
    rate: Rate,
    base_decimals: u8,
    token_decimals: u8,
) -> int {
    conversion_numerator(purchase_value, rate, base_decimals, token_decimals)
        / conversion_denominator(rate, base_decimals, token_decimals)
}

/// Both prices are positive, so the rate is neither zero nor negative, and
/// the conversion stays within the integers it is computed in.
pub open spec fn conversion_in_range(
    purchase_value: u64,
    rate: Rate,
    base_decimals: u8,
    token_decimals: u8,
) -> bool {
    rate.base_price.mantissa > 0 && rate.token_price.mantissa > 0 && (purchase_value == 0 || {
        &&& conversion_numerator(purchase_value, rate, base_decimals, token_decimals)
            <= u128::MAX
        &&& conversion_denominator(rate, base_decimals, token_decimals) <= u128::MAX
        &&& tokens_for_purchase(purchase_value, rate, base_decimals, token_decimals) <= u64::MAX
    })
}

/// Converts a purchase value in base-currency minor units into target-token
/// minor units at `rate`; a token precision above the base currency's moves
/// the power of ten to the numerator. A price of zero or below, or a result
/// out of range, is a `CalculationFailure`.
pub fn token_amount_for_purchase(
    purchase_value: u64,
    rate: &Rate,
    base_decimals: u8,
    token_decimals: u8,
) -> (r: Result<u64, ErrorCode>)
    ensures
        r is Ok <==> conversion_in_range(purchase_value, *rate, base_decimals, token_decimals),
        r matches Ok(v) ==> v == tokens_for_purchase(
            purchase_value,
            *rate,
            base_decimals,
            token_decimals,
        ),
        r is Err ==> r == Err::<u64, ErrorCode>(ErrorCode::CalculationFailure),
{
    if rate.base_price.mantissa <= 0 || rate.token_price.mantissa <= 0 {
        return Err(ErrorCode::CalculationFailure);
    }
    let ghost up = decimal_shift_up(base_decimals, token_decimals);
    let ghost down = decimal_shift_down(base_decimals, token_decimals);
    let ghost pts = pow10(rate.token_price.scale as nat) as int;
    let ghost pbs = pow10(rate.base_price.scale as nat) as int;
    let ghost pup = pow10(up) as int;
    let ghost pdown = pow10(down) as int;
    proof {
        lemma_pow10_positive(rate.token_price.scale as nat);
        lemma_pow10_positive(rate.base_price.scale as nat);
        lemma_pow10_positive(up);
        lemma_pow10_positive(down);
    }
    let shift_up: u32 = if token_decimals > base_decimals {
        (token_decimals - base_decimals) as u32
    } else {
        0
    };
    let shift_down: u32 = if base_decimals > token_decimals {
        (base_decimals - token_decimals) as u32
    } else {
        0
    };
    let bm = rate.base_price.mantissa as u128;
    let tm = rate.token_price.mantissa as u128;
    let den1 = checked_product(
        Some(tm),
        checked_pow10(rate.base_price.scale),
        Ghost(tm as int),
        Ghost(pbs),
    );
    proof {
        assert(tm * pbs >= 1) by (nonlinear_arith)
            requires
                tm >= 1,
                pbs >= 1,
        ;
    }
    let den = checked_product(den1, checked_pow10(shift_down), Ghost(tm * pbs), Ghost(pdown));
    proof {
        assert(conversion_denominator(*rate, base_decimals, token_decimals) == tm * pbs * pdown);
        assert(tm * pbs * pdown >= 1) by (nonlinear_arith)
            requires
                tm * pbs >= 1,
                pdown >= 1,
        ;
    }
    if purchase_value == 0 {
        proof {
            assert(conversion_numerator(purchase_value, *rate, base_decimals, token_decimals) == 0)
                by (nonlinear_arith)
                requires
                    purchase_value == 0,
                    conversion_numerator(purchase_value, *rate, base_decimals, token_decimals)
                        == purchase_value * rate.base_price.mantissa * pts * pup,
            ;
        }
        return Ok(0);
    }
    let pv = purchase_value as u128;
    let num1 = checked_product(Some(pv), Some(bm), Ghost(pv as int), Ghost(bm as int));
    proof {
        assert(pv * bm >= 1) by (nonlinear_arith)
            requires
                pv >= 1,
                bm >= 1,
        ;
    }
    let num2 = checked_product(
        num1,
        checked_pow10(rate.token_price.scale),
        Ghost(pv * bm),
        Ghost(pts),
    );
    proof {
        assert(pv * bm * pts >= 1) by (nonlinear_arith)
            requires
                pv * bm >= 1,
                pts >= 1,
        ;
    }
    let num = checked_product(num2, checked_pow10(shift_up), Ghost(pv * bm * pts), Ghost(pup));
    proof {
        assert(conversion_numerator(purchase_value, *rate, base_decimals, token_decimals) == pv
            * bm * pts * pup);
    }
    match (num, den) {
        (Some(n), Some(d)) => {
            let q = n / d;
            if q > u64::MAX as u128 {
                Err(ErrorCode::CalculationFailure)
            } else {
                Ok(q as u64)
            }
        },
        _ => Err(ErrorCode::CalculationFailure),
    }
}

} // verus!
