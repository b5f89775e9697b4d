use backtest::market::MarketData;
use backtest::processing::DataProcessor;

const SCALE: i64 = 10_000;

fn create_test_market_data(price: i64) -> MarketData {
    MarketData {
        timestamp: 0,
        symbol: "TEST".to_string(),
        price,
        volume: 1000 * SCALE,
        high: price + SCALE,
        low: price - SCALE,
    }
}

#[test]
fn test_moving_average_calculation() {
    let mut processor = DataProcessor::new(100);
    let prices = vec![10, 11, 12, 13, 14];

    for price in prices {
        let market_data = create_test_market_data(price * SCALE);
        let _ = processor.process_data(market_data);
    }

    let last_processed = processor.process_data(create_test_market_data(15 * SCALE));
    assert!(last_processed.moving_average_5.is_some());
    assert_eq!(last_processed.moving_average_5.unwrap(), 13 * SCALE);
}

#[test]
fn test_outlier_detection() {
    let mut processor = DataProcessor::new(100);
    // 100.0, 101.0, 99.0, 100.5, 101.5 cycled, so that the volatility
    // estimate (and with it the outlier rule) has its 20 prices of history
    // before the spike arrives.
    let normal_prices: Vec<i64> =
        vec![1_000_000, 1_010_000, 990_000, 1_005_000, 1_015_000].repeat(4);

    for price in normal_prices {
        let processed = processor.process_data(create_test_market_data(price));
        assert!(!processed.is_outlier);
    }

    // Test outlier: 150.0 against a window whose mean is near 100.
    let outlier = create_test_market_data(1_500_000);
    let processed = processor.process_data(outlier);
    assert!(processed.is_outlier);
}

#[test]
fn test_indicator_values_after_spike() {
    let mut processor = DataProcessor::new(100);
    let normal_prices: Vec<i64> =
        vec![1_000_000, 1_010_000, 990_000, 1_005_000, 1_015_000].repeat(4);
    for price in normal_prices {
        processor.process_data(create_test_market_data(price));
    }
    let processed = processor.process_data(create_test_market_data(1_500_000));
    assert_eq!(processed.moving_average_5, Some(1_104_000));
    assert_eq!(processed.moving_average_20, Some(1_029_000));
    assert_eq!(processed.rsi_14, Some(907_772));
    assert_eq!(processed.volatility, Some(111_208));
    assert!(processed.is_outlier);
}

#[test]
fn test_rsi_is_hundred_on_monotonic_gains() {
    let mut processor = DataProcessor::new(100);
    let mut last = None;
    for i in 0..15 {
        last = Some(processor.process_data(create_test_market_data((100 + i) * SCALE)));
    }
    let processed = last.unwrap();
    // Every change is a gain, so the smoothed average loss is zero.
    assert_eq!(processed.rsi_14, Some(100 * SCALE));
    assert_eq!(processed.moving_average_5, Some(112 * SCALE));
    assert!(processed.volatility.is_none());
}

#[test]
fn test_rsi_mixed_changes() {
    let mut processor = DataProcessor::new(100);
    let prices = vec![
        100, 102, 101, 103, 104, 103, 105, 106, 105, 107, 108, 107, 109, 110, 109, 111,
    ];
    let mut last = None;
    for price in prices {
        last = Some(processor.process_data(create_test_market_data(price * SCALE)));
    }
    assert_eq!(last.unwrap().rsi_14, Some(680_604));
}

#[test]
fn test_flat_window_has_zero_volatility() {
    let mut processor = DataProcessor::new(100);
    let mut last = None;
    for _ in 0..20 {
        last = Some(processor.process_data(create_test_market_data(100 * SCALE)));
    }
    let processed = last.unwrap();
    assert_eq!(processed.volatility, Some(0));
    assert_eq!(processed.moving_average_20, Some(100 * SCALE));
    // No change at all: the smoothed average loss is zero.
    assert_eq!(processed.rsi_14, Some(100 * SCALE));
    assert!(!processed.is_outlier);
}

#[test]
fn test_indicators_undefined_without_history() {
    let mut processor = DataProcessor::new(100);
    let processed = processor.process_data(create_test_market_data(100 * SCALE));
    assert!(processed.moving_average_5.is_none());
    assert!(processed.moving_average_20.is_none());
    assert!(processed.rsi_14.is_none());
    assert!(processed.volatility.is_none());
    assert!(!processed.is_outlier);
}

#[test]
fn test_history_capacity_is_bounded() {
    // Capacity 5: the moving average must follow only the retained window.
    let mut processor = DataProcessor::new(5);
    for i in 0..10 {
        processor.process_data(create_test_market_data((100 + i) * SCALE));
    }
    let processed = processor.process_data(create_test_market_data(110 * SCALE));
    // Window holds 106..110; the mean is 108.
    assert_eq!(processed.moving_average_5, Some(108 * SCALE));
    assert!(processed.moving_average_20.is_none());
}

#[test]
fn test_process_batch_matches_one_by_one() {
    let prices = vec![10, 11, 12, 13, 14, 15];

    let mut one_by_one = DataProcessor::new(100);
    let mut expected = Vec::new();
    for &price in &prices {
        expected.push(one_by_one.process_data(create_test_market_data(price * SCALE)));
    }

    let mut batched = DataProcessor::new(100);
    let batch: Vec<MarketData> = prices
        .iter()
        .map(|&p| create_test_market_data(p * SCALE))
        .collect();
    let got = batched.process_batch(batch);
    assert_eq!(got, expected);
}
