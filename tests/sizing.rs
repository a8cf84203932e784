use trade_size::sizing::{SizingError, TradeSize};

#[test]
fn scenario_ten_thousand_equity() {
    let ts = TradeSize::new(1_000_000, 5_000, 4_500);
    assert_eq!(ts.per_unit_risk(), 500);
    assert_eq!(ts.risk_equity(100), 10_000);
    assert_eq!(ts.num_shares(100), Ok(20));
    assert_eq!(ts.risk_equity(200), 20_000);
    assert_eq!(ts.num_shares(200), Ok(40));
}

#[test]
fn equal_price_and_stop_is_division_by_zero() {
    let ts = TradeSize::new(500_000, 2_000, 2_000);
    assert_eq!(ts.per_unit_risk(), 0);
    assert_eq!(ts.num_shares(100), Err(SizingError::DivisionByZero));
    assert_eq!(ts.num_shares(200), Err(SizingError::DivisionByZero));
}

#[test]
fn per_unit_risk_is_price_minus_stop() {
    assert_eq!(TradeSize::new(0, 1_234, 1_000).per_unit_risk(), 234);
    assert_eq!(TradeSize::new(0, 4_500, 5_000).per_unit_risk(), -500);
    assert_eq!(TradeSize::new(0, i64::MAX, i64::MIN).per_unit_risk(), u64::MAX as i128);
}

#[test]
fn risk_equity_rounds_to_the_nearest_cent() {
    // 123.45 at 1.25% is 1.543125
    assert_eq!(TradeSize::new(12_345, 0, 0).risk_equity(125), 154);
    // halves go away from zero
    assert_eq!(TradeSize::new(2, 0, 0).risk_equity(2_500), 1);
    assert_eq!(TradeSize::new(-2, 0, 0).risk_equity(2_500), -1);
    assert_eq!(TradeSize::new(1, 0, 0).risk_equity(4_999), 0);
    assert_eq!(TradeSize::new(777, 0, 0).risk_equity(0), 0);
    assert_eq!(TradeSize::new(1_000_000, 0, 0).risk_equity(10_000), 1_000_000);
}

#[test]
fn shares_never_fall_as_risk_rises() {
    let ts = TradeSize::new(1_234_567, 3_317, 2_989);
    let mut last = 0u32;
    for risk in 0..=10_000u32 {
        let n = ts.num_shares(risk).unwrap();
        assert!(n >= last);
        last = n;
    }
    assert_eq!(ts.num_shares(100), Ok(37));
}

#[test]
fn stop_above_price_gives_negative_shares() {
    let ts = TradeSize::new(1_000_000, 4_500, 5_000);
    assert_eq!(ts.num_shares(100), Err(SizingError::NegativeShares));
    // a negative ratio is an error even where it truncates to zero
    let small = TradeSize::new(10_000, 5_000, 5_500);
    assert_eq!(small.num_shares(100), Err(SizingError::NegativeShares));
    let tiny = TradeSize::new(100, 4_500, 5_000);
    assert_eq!(tiny.num_shares(100), Err(SizingError::NegativeShares));
    // no equity at risk, or a positive ratio below one, gives no shares
    assert_eq!(TradeSize::new(0, 4_500, 5_000).num_shares(100), Ok(0));
    assert_eq!(TradeSize::new(-10_000, 4_500, 5_000).num_shares(100), Ok(0));
}

#[test]
fn huge_counts_are_refused() {
    let ts = TradeSize::new(100_000_000_000_000_000, 101, 100);
    assert_eq!(ts.num_shares(200), Err(SizingError::TooManyShares));
}

#[test]
fn sizing_error_messages() {
    assert!(SizingError::DivisionByZero.message().contains("Division by zero"));
    assert!(SizingError::NegativeShares.message().contains("negative"));
    assert!(SizingError::TooManyShares.message().contains("too large"));
}
