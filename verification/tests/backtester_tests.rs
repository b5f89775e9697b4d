use backtest::backtesting::{Backtester, ConfigError, Signal, StrategyMode, TradeSignal};
use backtest::market::{MarketData, ProcessedMarketData};

const SCALE: i64 = 10_000;
const INITIAL_CAPITAL: i64 = 10_000 * SCALE;
const POSITION_SIZE: i64 = 1000 * SCALE;
const COMMISSION_RATE: i64 = 10;  // 0.001

fn create_test_data(price: i64, timestamp: i64) -> ProcessedMarketData {
    ProcessedMarketData {
        raw_data: MarketData {
            timestamp,
            symbol: "TEST".to_string(),
            price,
            volume: 1000 * SCALE,
            high: price + SCALE,
            low: price - SCALE,
        },
        moving_average_5: Some(price),
        moving_average_20: Some(price),
        rsi_14: Some(50 * SCALE),
        volatility: Some(SCALE),
        is_outlier: false,
    }
}

fn make_data(prices: &[i64]) -> Vec<ProcessedMarketData> {
    prices
        .iter()
        .enumerate()
        .map(|(i, &p)| create_test_data(p * SCALE, (i as i64) * 3600))
        .collect()
}

fn holds(n: usize) -> Vec<Signal> {
    vec![Signal::Hold; n]
}

#[test]
fn test_individual_strategies() {
    let mut backtester =
        Backtester::new(INITIAL_CAPITAL, POSITION_SIZE, COMMISSION_RATE).unwrap();
    backtester.set_strategy_mode(StrategyMode::Rsi);

    // A simple price trend; the first producer opens at 100 and closes at
    // 103 (reversing into a short).
    let market_data = make_data(&[100, 101, 102, 103, 102, 101, 100]);
    let rsi_signals = vec![
        Signal::Buy,
        Signal::Hold,
        Signal::Hold,
        Signal::Sell,
        Signal::Hold,
        Signal::Hold,
        Signal::Hold,
    ];
    let bollinger_signals = holds(7);

    let result = backtester.run_backtest(&market_data, &rsi_signals, &bollinger_signals);

    assert!(result.total_trades > 0);
    assert!(result.total_pnl.abs() > 0);
    assert!(result.win_rate >= 0 && result.win_rate <= SCALE as i128);
}

#[test]
fn test_combined_strategies() {
    let mut backtester =
        Backtester::new(INITIAL_CAPITAL, POSITION_SIZE, COMMISSION_RATE).unwrap();
    backtester.set_strategy_mode(StrategyMode::Combined);

    let market_data = make_data(&[100, 101, 102, 103, 102, 101, 100]);
    let rsi_signals = vec![
        Signal::Buy,
        Signal::Hold,
        Signal::Hold,
        Signal::Sell,
        Signal::Hold,
        Signal::Hold,
        Signal::Hold,
    ];
    let bollinger_signals = holds(7);

    let result = backtester.run_backtest(&market_data, &rsi_signals, &bollinger_signals);

    // In combined mode, we expect fewer trades since both strategies must agree
    assert!(result.total_trades <= result.total_trades);
}

#[test]
fn test_strategy_mode_switching() {
    let mut backtester =
        Backtester::new(INITIAL_CAPITAL, POSITION_SIZE, COMMISSION_RATE).unwrap();

    let market_data = make_data(&[100, 101, 102, 103, 102, 101, 100]);
    let rsi_signals = vec![
        Signal::Buy,
        Signal::Hold,
        Signal::Hold,
        Signal::Sell,
        Signal::Hold,
        Signal::Hold,
        Signal::Hold,
    ];
    let bollinger_signals = holds(7);

    // Test individual mode
    backtester.set_strategy_mode(StrategyMode::Rsi);
    let individual_result =
        backtester.run_backtest(&market_data, &rsi_signals, &bollinger_signals);

    // Test combined mode
    backtester.set_strategy_mode(StrategyMode::Combined);
    let combined_result =
        backtester.run_backtest(&market_data, &rsi_signals, &bollinger_signals);

    // Combined mode should generally have fewer trades
    assert!(combined_result.total_trades <= individual_result.total_trades);
}

#[test]
fn test_configuration_validation() {
    assert_eq!(
        Backtester::new(0, POSITION_SIZE, COMMISSION_RATE).unwrap_err(),
        ConfigError::InitialCapitalOutOfRange
    );
    assert_eq!(
        Backtester::new(-5, POSITION_SIZE, COMMISSION_RATE).unwrap_err(),
        ConfigError::InitialCapitalOutOfRange
    );
    assert_eq!(
        Backtester::new(INITIAL_CAPITAL, 0, COMMISSION_RATE).unwrap_err(),
        ConfigError::PositionSizeOutOfRange
    );
    assert_eq!(
        Backtester::new(INITIAL_CAPITAL, POSITION_SIZE, -1).unwrap_err(),
        ConfigError::CommissionRateOutOfRange
    );
    assert!(Backtester::new(INITIAL_CAPITAL, POSITION_SIZE, 0).is_ok());
}

#[test]
fn test_quantity_and_commission() {
    // position size 1000 at entry price 100 gives quantity 10; commission
    // rate 0.001 gives a commission of exactly 1.0 on close.
    let mut backtester =
        Backtester::new(INITIAL_CAPITAL, POSITION_SIZE, COMMISSION_RATE).unwrap();
    backtester.set_strategy_mode(StrategyMode::Rsi);

    let market_data = make_data(&[100, 100]);
    let rsi_signals = vec![Signal::Buy, Signal::Sell];
    let result = backtester.run_backtest(&market_data, &rsi_signals, &holds(2));

    assert_eq!(result.total_trades, 1);
    let trade = &result.trades[0];
    assert_eq!(trade.quantity, 10 * SCALE as i128);
    assert_eq!(trade.entry_price, 100 * SCALE);
    assert_eq!(trade.exit_price, Some(100 * SCALE));
    // Flat close: the realized result is exactly minus the 1.0 commission.
    assert_eq!(trade.pnl, Some(-(SCALE as i128)));
    assert_eq!(result.total_pnl, -(SCALE as i128));
    assert_eq!(result.winning_trades, 0);
    assert_eq!(result.losing_trades, 1);
}

#[test]
fn test_flat_series_all_hold() {
    let mut backtester =
        Backtester::new(INITIAL_CAPITAL, POSITION_SIZE, COMMISSION_RATE).unwrap();
    backtester.set_strategy_mode(StrategyMode::Combined);

    let market_data = make_data(&[100, 100, 100, 100, 100]);
    let result = backtester.run_backtest(&market_data, &holds(5), &holds(5));

    assert_eq!(result.total_trades, 0);
    assert_eq!(result.total_pnl, 0);
    assert_eq!(result.win_rate, 0);
    assert_eq!(result.max_drawdown, 0);
    assert_eq!(result.sharpe_ratio, 0);
    let curve = backtester.equity_curve();
    assert_eq!(curve.len(), 6);
    for point in curve {
        assert_eq!(point.equity, INITIAL_CAPITAL as i128);
        assert_eq!(point.drawdown, 0);
    }
}

#[test]
fn test_combined_mode_ignores_strict_disagreement() {
    let mut backtester =
        Backtester::new(INITIAL_CAPITAL, POSITION_SIZE, COMMISSION_RATE).unwrap();
    backtester.set_strategy_mode(StrategyMode::Combined);

    let market_data = make_data(&[100, 105, 95]);
    let rsi_signals = vec![Signal::Buy, Signal::Sell, Signal::Buy];
    let bollinger_signals = vec![Signal::Sell, Signal::Buy, Signal::Sell];
    let result = backtester.run_backtest(&market_data, &rsi_signals, &bollinger_signals);

    // Strict disagreement on every tick: no position is ever opened.
    assert_eq!(result.total_trades, 0);
    for point in backtester.equity_curve() {
        assert_eq!(point.equity, INITIAL_CAPITAL as i128);
    }
}

#[test]
fn test_combined_mode_prefers_second_producer() {
    let mut backtester =
        Backtester::new(INITIAL_CAPITAL, POSITION_SIZE, COMMISSION_RATE).unwrap();
    backtester.set_strategy_mode(StrategyMode::Combined);

    // A holds, B buys: the decision is B's buy. Then both sell: close.
    let market_data = make_data(&[100, 103]);
    let rsi_signals = vec![Signal::Hold, Signal::Sell];
    let bollinger_signals = vec![Signal::Buy, Signal::Sell];
    let result = backtester.run_backtest(&market_data, &rsi_signals, &bollinger_signals);

    assert_eq!(result.total_trades, 1);
    // Long opened at 100 and closed at 103: 10 units gain 30, less 1.0.
    assert_eq!(result.trades[0].pnl, Some(29 * SCALE as i128));
    assert_eq!(result.winning_trades, 1);
    assert_eq!(result.win_rate, SCALE as i128);
}

#[test]
fn test_equity_curve_length() {
    let mut backtester =
        Backtester::new(INITIAL_CAPITAL, POSITION_SIZE, COMMISSION_RATE).unwrap();
    backtester.set_strategy_mode(StrategyMode::Rsi);

    for n in [0usize, 1, 4, 9] {
        let prices: Vec<i64> = (0..n as i64).map(|i| 100 + i).collect();
        let market_data = make_data(&prices);
        let _ = backtester.run_backtest(&market_data, &holds(n), &holds(n));
        assert_eq!(backtester.equity_curve().len(), n + 1);
    }
}

#[test]
fn test_max_drawdown_zero_on_rising_series() {
    let mut backtester =
        Backtester::new(INITIAL_CAPITAL, POSITION_SIZE, COMMISSION_RATE).unwrap();
    backtester.set_strategy_mode(StrategyMode::Rsi);

    // Strictly increasing prices with a long position held throughout:
    // equity never declines, so the running-peak drawdown stays zero.
    let market_data = make_data(&[100, 101, 102, 103]);
    let rsi_signals = vec![Signal::Buy, Signal::Hold, Signal::Hold, Signal::Hold];
    let result = backtester.run_backtest(&market_data, &rsi_signals, &holds(4));

    assert_eq!(result.losing_trades, 0);
    assert_eq!(result.max_drawdown, 0);
}

#[test]
fn test_max_drawdown_and_sharpe_values() {
    let mut backtester =
        Backtester::new(INITIAL_CAPITAL, POSITION_SIZE, COMMISSION_RATE).unwrap();
    backtester.set_strategy_mode(StrategyMode::Rsi);

    // Buy at 100, price falls to 90: equity 10000 -> 10000 -> 9900.
    let market_data = make_data(&[100, 90]);
    let rsi_signals = vec![Signal::Buy, Signal::Hold];
    let result = backtester.run_backtest(&market_data, &rsi_signals, &holds(2));

    let curve = backtester.equity_curve();
    assert_eq!(curve[0].equity, 100_000_000);
    assert_eq!(curve[1].equity, 100_000_000);
    assert_eq!(curve[2].equity, 99_000_000);
    // (10000 - 9900) / 10000 = 0.01
    assert_eq!(result.max_drawdown, 100);
    assert_eq!(curve[2].drawdown, 100);
    // Period returns 0 and -0.01, annualized over 252 periods.
    assert_eq!(result.sharpe_ratio, -161_412);
}

#[test]
fn test_zero_pnl_counts_as_losing() {
    // No commission, flat close: the realized result is exactly zero,
    // which must be classified as losing, not winning.
    let mut backtester = Backtester::new(INITIAL_CAPITAL, POSITION_SIZE, 0).unwrap();
    backtester.set_strategy_mode(StrategyMode::Rsi);

    let market_data = make_data(&[100, 100]);
    let rsi_signals = vec![Signal::Buy, Signal::Sell];
    let result = backtester.run_backtest(&market_data, &rsi_signals, &holds(2));

    assert_eq!(result.trades[0].pnl, Some(0));
    assert_eq!(result.winning_trades, 0);
    assert_eq!(result.losing_trades, 1);
    assert_eq!(result.total_trades, 1);
}

#[test]
fn test_total_pnl_is_sum_of_trades() {
    let mut backtester =
        Backtester::new(INITIAL_CAPITAL, POSITION_SIZE, COMMISSION_RATE).unwrap();
    backtester.set_strategy_mode(StrategyMode::Rsi);

    // Alternating buy/sell over a zig-zag: three closed trades, one
    // position left open (the final sell reverses into a short).
    let market_data = make_data(&[100, 103, 101, 104]);
    let rsi_signals = vec![Signal::Buy, Signal::Sell, Signal::Buy, Signal::Sell];
    let result = backtester.run_backtest(&market_data, &rsi_signals, &holds(4));

    assert_eq!(result.total_trades, 3);
    let sum: i128 = result.trades.iter().map(|t| t.pnl.unwrap()).sum();
    assert_eq!(result.total_pnl, sum);
    assert_eq!(result.trades[0].pnl, Some(290_000));
    assert_eq!(result.trades[1].pnl, Some(184_174));
    assert_eq!(result.trades[2].pnl, Some(287_027));
    assert_eq!(result.total_pnl, 761_201);
    assert_eq!(result.winning_trades, 3);
    assert_eq!(result.average_win, 253_733);
    assert_eq!(result.largest_win, 290_000);
    assert_eq!(result.average_loss, 0);
    assert_eq!(result.largest_loss, 0);
}

#[test]
fn test_runs_are_deterministic() {
    let market_data = make_data(&[100, 103, 101, 104, 102]);
    let rsi_signals = vec![
        Signal::Buy,
        Signal::Sell,
        Signal::Buy,
        Signal::Sell,
        Signal::Hold,
    ];
    let bollinger_signals = vec![
        Signal::Hold,
        Signal::Sell,
        Signal::Hold,
        Signal::Sell,
        Signal::Buy,
    ];

    let mut first = Backtester::new(INITIAL_CAPITAL, POSITION_SIZE, COMMISSION_RATE).unwrap();
    first.set_strategy_mode(StrategyMode::Combined);
    let r1 = first.run_backtest(&market_data, &rsi_signals, &bollinger_signals);

    let mut second = Backtester::new(INITIAL_CAPITAL, POSITION_SIZE, COMMISSION_RATE).unwrap();
    second.set_strategy_mode(StrategyMode::Combined);
    let r2 = second.run_backtest(&market_data, &rsi_signals, &bollinger_signals);

    assert_eq!(r1, r2);

    // Reusing one engine across runs must not contaminate the result.
    let r3 = second.run_backtest(&market_data, &rsi_signals, &bollinger_signals);
    assert_eq!(r1, r3);
}

#[test]
fn test_single_mode_uses_only_its_producer() {
    let market_data = make_data(&[100, 103]);
    let rsi_signals = vec![Signal::Buy, Signal::Sell];
    let bollinger_signals = vec![Signal::Sell, Signal::Buy];

    let mut rsi_engine =
        Backtester::new(INITIAL_CAPITAL, POSITION_SIZE, COMMISSION_RATE).unwrap();
    rsi_engine.set_strategy_mode(StrategyMode::Rsi);
    let rsi_result = rsi_engine.run_backtest(&market_data, &rsi_signals, &bollinger_signals);
    // Long 100 -> 103: wins.
    assert_eq!(rsi_result.winning_trades, 1);

    let mut bb_engine =
        Backtester::new(INITIAL_CAPITAL, POSITION_SIZE, COMMISSION_RATE).unwrap();
    bb_engine.set_strategy_mode(StrategyMode::BollingerBands);
    let bb_result = bb_engine.run_backtest(&market_data, &rsi_signals, &bollinger_signals);
    // Short 100 -> 103: loses.
    assert_eq!(bb_result.losing_trades, 1);
}

#[test]
fn test_combined_decision_table() {
    let (buy, sell, hold) = (Signal::Buy, Signal::Sell, Signal::Hold);
    // The full 3x3 agreement table, with its asymmetric tie-break: whenever
    // the second producer is not Hold, the decision is the second
    // producer's signal.
    let table = [
        (buy, buy, Some(TradeSignal::Buy)),
        (buy, sell, None),
        (buy, hold, Some(TradeSignal::Buy)),
        (sell, buy, None),
        (sell, sell, Some(TradeSignal::Sell)),
        (sell, hold, Some(TradeSignal::Sell)),
        (hold, buy, Some(TradeSignal::Buy)),
        (hold, sell, Some(TradeSignal::Sell)),
        (hold, hold, None),
    ];
    for &(a, b, expected) in table.iter() {
        assert_eq!(Backtester::decide(StrategyMode::Combined, a, b), expected);
        assert_eq!(
            Backtester::signals_agree(a, b),
            expected.is_some(),
            "agreement mismatch for {:?}/{:?}",
            a,
            b
        );
    }
    // Single-producer modes pass their own producer through.
    for &s in [buy, sell, hold].iter() {
        for &o in [buy, sell, hold].iter() {
            let as_trade = match s {
                Signal::Buy => TradeSignal::Buy,
                Signal::Sell => TradeSignal::Sell,
                Signal::Hold => TradeSignal::Hold,
            };
            assert_eq!(Backtester::decide(StrategyMode::Rsi, s, o), Some(as_trade));
            assert_eq!(
                Backtester::decide(StrategyMode::BollingerBands, o, s),
                Some(as_trade)
            );
        }
    }
}

#[test]
fn test_seed_point_timestamp_derives_from_input() {
    let mut backtester =
        Backtester::new(INITIAL_CAPITAL, POSITION_SIZE, COMMISSION_RATE).unwrap();
    backtester.set_strategy_mode(StrategyMode::Rsi);

    let market_data = vec![
        create_test_data(100 * SCALE, 12_345),
        create_test_data(101 * SCALE, 12_346),
    ];
    let rsi_signals = vec![Signal::Buy, Signal::Sell];
    let result = backtester.run_backtest(&market_data, &rsi_signals, &holds(2));

    // The seed point carries the first tick's timestamp, not a clock's.
    let curve = backtester.equity_curve();
    assert_eq!(curve[0].timestamp, 12_345);
    assert_eq!(curve[1].timestamp, 12_345);
    assert_eq!(curve[2].timestamp, 12_346);
    assert_eq!(result.trades[0].entry_time, 12_345);
    assert_eq!(result.trades[0].exit_time, Some(12_346));

    // An empty run seeds with timestamp zero.
    let empty: Vec<ProcessedMarketData> = Vec::new();
    let _ = backtester.run_backtest(&empty, &holds(0), &holds(0));
    assert_eq!(backtester.equity_curve()[0].timestamp, 0);
}
