use yield_controller::{
    check_proportions, fixed_burn_amount, get_latest_price, route_amounts, split_purchase,
    token_amount_for_purchase, transfer_native, get_price_from_feed, Decimal, ErrorCode,
    PriceReading, Rate,
};

fn reading(mantissa: i128, scale: u32, sd_mantissa: i128, sd_scale: u32, timestamp: i64) -> PriceReading {
    PriceReading {
        price: Decimal { mantissa, scale },
        std_deviation: Decimal { mantissa: sd_mantissa, scale: sd_scale },
        timestamp,
    }
}

#[test]
fn split_thirty_percent_of_a_million() {
    let split = split_purchase(1_000_000, 300_000);
    assert_eq!(split.purchase_value, 300_000);
    assert_eq!(split.remainder, 700_000);
    assert_eq!(split.purchase_value + split.remainder, 1_000_000);
}

#[test]
fn split_then_route_seventy_thirty() {
    let split = split_purchase(1_000_000, 300_000);
    let forwards = route_amounts(split.remainder, &vec![70, 30]);
    assert_eq!(forwards, vec![490_000, 210_000]);
    assert!(forwards.iter().sum::<u64>() <= split.remainder);
}

#[test]
fn split_rounds_purchase_down() {
    let split = split_purchase(10, 333_333);
    assert_eq!(split.purchase_value, 3);
    assert_eq!(split.remainder, 7);
    let all = split_purchase(u64::MAX, 1_000_000);
    assert_eq!(all.purchase_value, u64::MAX);
    assert_eq!(all.remainder, 0);
    let none = split_purchase(12345, 0);
    assert_eq!(none.purchase_value, 0);
    assert_eq!(none.remainder, 12345);
}

#[test]
fn routing_residue_below_destination_count() {
    let forwards = route_amounts(10, &vec![33, 33, 34]);
    assert_eq!(forwards, vec![3, 3, 3]);
    let residue = 10 - forwards.iter().sum::<u64>();
    assert!(residue < 3);
    assert_eq!(route_amounts(u64::MAX, &vec![100]), vec![u64::MAX]);
}

#[test]
fn proportions_must_sum_to_hundred() {
    assert_eq!(check_proportions(&[70, 30]), Ok(()));
    assert_eq!(check_proportions(&[100]), Ok(()));
    assert_eq!(check_proportions(&[70, 20]), Err(ErrorCode::InvalidProportions));
    assert_eq!(check_proportions(&[]), Err(ErrorCode::InvalidProportions));
    assert_eq!(check_proportions(&[200, 156]), Err(ErrorCode::InvalidProportions));
    assert_eq!(check_proportions(&[60, 60]), Err(ErrorCode::InvalidProportions));
}

#[test]
fn fixed_price_burn() {
    assert_eq!(fixed_burn_amount(1000, 7), Ok(142));
    assert_eq!(fixed_burn_amount(1000, 0), Err(ErrorCode::CalculationFailure));
}

#[test]
fn oracle_conversion_example() {
    let rate = Rate {
        token_price: Decimal { mantissa: 50, scale: 2 },
        base_price: Decimal { mantissa: 10000, scale: 2 },
    };
    assert_eq!(token_amount_for_purchase(500_000_000, &rate, 9, 6), Ok(100_000_000));
}

#[test]
fn oracle_conversion_token_more_precise_than_base() {
    let rate = Rate {
        token_price: Decimal { mantissa: 50, scale: 2 },
        base_price: Decimal { mantissa: 10000, scale: 2 },
    };
    assert_eq!(token_amount_for_purchase(500_000_000, &rate, 9, 12), Ok(100_000_000_000_000));
    assert_eq!(token_amount_for_purchase(0, &rate, 9, 6), Ok(0));
}

#[test]
fn oracle_conversion_out_of_range() {
    let rate = Rate {
        token_price: Decimal { mantissa: 1, scale: 0 },
        base_price: Decimal { mantissa: 1, scale: 0 },
    };
    assert_eq!(token_amount_for_purchase(u64::MAX, &rate, 0, 1), Err(ErrorCode::CalculationFailure));
    assert_eq!(token_amount_for_purchase(5, &rate, 0, 60), Err(ErrorCode::CalculationFailure));
}

#[test]
fn reading_validation() {
    let fresh = reading(10000, 2, 80, 2, 1_000);
    assert_eq!(get_price_from_feed(&fresh, 1_060, 60), Ok(Decimal { mantissa: 10000, scale: 2 }));
    assert_eq!(get_price_from_feed(&fresh, 1_061, 60), Err(ErrorCode::StaleFeed));
    let wide = reading(10000, 2, 81, 2, 1_000);
    assert_eq!(get_price_from_feed(&wide, 1_000, 60), Err(ErrorCode::LowConfidence));
    let wide_coarse = reading(10000, 2, 1, 0, 1_000);
    assert_eq!(get_price_from_feed(&wide_coarse, 1_000, 60), Err(ErrorCode::LowConfidence));
    let fine = reading(10000, 2, 7999, 4, 1_000);
    assert!(get_price_from_feed(&fine, 1_000, 60).is_ok());
    let zero = reading(0, 2, 0, 0, 1_000);
    assert_eq!(get_price_from_feed(&zero, 1_000, 60), Ok(Decimal { mantissa: 0, scale: 2 }));
    let fine_scale = reading(1, 29, 0, 0, 1_000);
    assert_eq!(get_price_from_feed(&fine_scale, 1_000, 60), Ok(Decimal { mantissa: 1, scale: 29 }));
    let one_at_fine_scale = reading(10000, 2, 100_000_000_000_000_000_000_000_000_000, 29, 1_000);
    assert_eq!(get_price_from_feed(&one_at_fine_scale, 1_000, 60), Err(ErrorCode::LowConfidence));
    let small_at_huge_scale = reading(10000, 2, i128::MAX, 60, 1_000);
    assert!(get_price_from_feed(&small_at_huge_scale, 1_000, 60).is_ok());
}

#[test]
fn rate_denominator_must_be_positive() {
    let zero_base = reading(0, 2, 0, 0, 1_000);
    let stale_token = reading(50, 2, 0, 0, 0);
    assert_eq!(get_latest_price(&zero_base, &stale_token, 1_000, 60), Err(ErrorCode::StaleFeed));
    let good_token = reading(50, 2, 0, 0, 1_000);
    assert_eq!(get_latest_price(&zero_base, &good_token, 1_000, 60), Err(ErrorCode::CalculationFailure));
    let good_base = reading(10000, 2, 0, 0, 1_000);
    let zero_token = reading(0, 2, 0, 0, 1_000);
    let rate = get_latest_price(&good_base, &zero_token, 1_000, 60).unwrap();
    assert_eq!(rate.token_price, Decimal { mantissa: 0, scale: 2 });
    assert_eq!(token_amount_for_purchase(1_000, &rate, 9, 6), Err(ErrorCode::CalculationFailure));
    let negative_base = Rate { base_price: Decimal { mantissa: -5, scale: 0 }, ..rate };
    assert_eq!(token_amount_for_purchase(1_000, &negative_base, 9, 6), Err(ErrorCode::CalculationFailure));
}

#[test]
fn rate_checks_base_feed_first() {
    let stale = reading(10000, 2, 0, 0, 0);
    let wide = reading(50, 2, 90, 2, 1_000);
    let good_base = reading(10000, 2, 0, 0, 1_000);
    assert_eq!(get_latest_price(&stale, &wide, 1_000, 60), Err(ErrorCode::StaleFeed));
    assert_eq!(get_latest_price(&good_base, &wide, 1_000, 60), Err(ErrorCode::LowConfidence));
    let good_token = reading(50, 2, 0, 0, 1_000);
    let rate = get_latest_price(&good_base, &good_token, 1_000, 60).unwrap();
    assert_eq!(rate.token_price, Decimal { mantissa: 50, scale: 2 });
    assert_eq!(rate.base_price, Decimal { mantissa: 10000, scale: 2 });
}

#[test]
fn native_transfer_moves_balance() {
    let mut source = 100u64;
    let mut dest = 5u64;
    assert_eq!(transfer_native(&mut source, &mut dest, 40), Ok(()));
    assert_eq!((source, dest), (60, 45));
    assert_eq!(transfer_native(&mut source, &mut dest, 61), Err(ErrorCode::InsufficientFunds));
    assert_eq!((source, dest), (60, 45));
    let mut full = u64::MAX;
    assert_eq!(transfer_native(&mut source, &mut full, 1), Err(ErrorCode::CalculationFailure));
    assert_eq!(source, 60);
}
