//! The engine's guarantees that relate several functions or whole runs,
//! stated and proved as public lemmas. Per-function guarantees (trade
//! counts partitioning a run, the win rate's range, the equity curve's
//! length, the exact total of realized results, a non-negative maximum
//! drawdown) are part of `run_backtest`'s contract itself.

use vstd::prelude::*;
use crate::backtesting::{
    count_losing, count_winning, decide_spec, equity_now, lemma_equity_bounds,
    lemma_quantity_bounds, lemma_sim_wf, lemma_value_monotone, max_drawdown_spec, mdd_fold,
    open_trade, result_matches, sim, sim_step, tick_point, total_pnl_spec, valid_config,
    BacktestResult, Config, EquityPoint, PositionType, Signal, StrategyMode, Trade, TradeSignal,
};
use crate::fixed::{div_trunc, SCALE};
use crate::market::ProcessedMarketData;

verus! {

/// A closed trade counted as winning: realized result strictly positive.
pub open spec fn is_winning(t: Trade) -> bool {
    t.pnl is Some && t.pnl.unwrap() > 0
}

/// A closed trade counted as losing: realized result present and not
/// strictly positive (a result of exactly zero loses).
pub open spec fn is_losing(t: Trade) -> bool {
    t.pnl is Some && t.pnl.unwrap() <= 0
}

/// The winning and losing counters are exactly the sizes of the winning
/// and losing sublists of the trade history: a trade with positive
/// realized result is counted winning, any other trade with a realized
/// result is counted losing, with the boundary at exactly zero losing.
pub proof fn lemma_trade_classification(ts: Seq<Trade>)
    ensures
        count_winning(ts) == ts.filter(|t: Trade| is_winning(t)).len(),
        count_losing(ts) == ts.filter(|t: Trade| is_losing(t)).len(),
    decreases ts.len(),
{
    reveal(Seq::filter);
    if ts.len() > 0 {
        lemma_trade_classification(ts.drop_last());
    }
}

/// A run whose equity curve never declines (and starts at the initial
/// capital, as every run's curve does) has a maximum drawdown of exactly
/// zero.
pub proof fn lemma_no_drawdown_when_equity_nondecreasing(
    initial_capital: int,
    curve: Seq<EquityPoint>,
)
    requires
        1 <= initial_capital,
        curve.len() >= 1,
        curve[0].equity == initial_capital,
        forall|i: int|
            0 <= i < curve.len() - 1 ==> (#[trigger] curve[i].equity) as int <= curve[i
                + 1].equity as int,
    ensures
        max_drawdown_spec(initial_capital, curve) == 0,
{
    lemma_mdd_fold_zero(curve, 0, initial_capital);
}

/// Helper: walking the curve from `i` with a peak that does not exceed the
/// next equity, over a non-declining tail, accumulates no drawdown.
proof fn lemma_mdd_fold_zero(curve: Seq<EquityPoint>, i: int, peak: int)
    requires
        0 <= i <= curve.len(),
        peak >= 1,
        i < curve.len() ==> peak <= curve[i].equity as int,
        forall|j: int|
            i <= j < curve.len() - 1 ==> (#[trigger] curve[j].equity) as int <= curve[j
                + 1].equity as int,
    ensures
        mdd_fold(curve, i, peak, 0).1 == 0,
    decreases curve.len() - i,
{
    if i < curve.len() {
        let e = curve[i].equity as int;
        let p2 = if e > peak {
            e
        } else {
            peak
        };
        assert(p2 == e);
        assert(div_trunc((p2 - e) * (SCALE as int), p2) == 0);
        lemma_mdd_fold_zero(curve, i + 1, p2);
    }
}

/// In combined mode, a tick on which the two producers strictly disagree
/// (one Buy, one Sell) resolves to no decision and leaves the ledger
/// untouched: no position is opened or closed on that tick.
pub proof fn lemma_disagreement_no_action(
    c: Config,
    data: Seq<ProcessedMarketData>,
    a: Seq<Signal>,
    b: Seq<Signal>,
    i: int,
)
    requires
        0 <= i < data.len(),
        (a[i] == Signal::Buy && b[i] == Signal::Sell) || (a[i] == Signal::Sell && b[i]
            == Signal::Buy),
    ensures
        decide_spec(StrategyMode::Combined, a[i], b[i]) is None,
        sim(c, StrategyMode::Combined, data, a, b, i + 1).pos == sim(
            c,
            StrategyMode::Combined,
            data,
            a,
            b,
            i,
        ).pos,
        sim(c, StrategyMode::Combined, data, a, b, i + 1).trades == sim(
            c,
            StrategyMode::Combined,
            data,
            a,
            b,
            i,
        ).trades,
{
    let s = sim(c, StrategyMode::Combined, data, a, b, i);
    assert(sim(c, StrategyMode::Combined, data, a, b, i + 1) == sim_step(
        c,
        StrategyMode::Combined,
        s,
        data[i],
        a[i],
        b[i],
    ));
}

/// A run in which both producers hold throughout closes no trade, ends
/// with no open position, reports a total realized result of zero, and
/// keeps the equity curve constant at the initial capital with zero
/// per-tick drawdown, whatever the prices do and in every mode.
pub proof fn lemma_all_hold_is_flat(
    c: Config,
    mode: StrategyMode,
    data: Seq<ProcessedMarketData>,
    a: Seq<Signal>,
    b: Seq<Signal>,
    n: int,
)
    requires
        valid_config(c),
        0 <= n <= data.len(),
        forall|i: int| 0 <= i < n ==> (#[trigger] a[i]) == Signal::Hold && b[i] == Signal::Hold,
    ensures
        sim(c, mode, data, a, b, n).pos is None,
        sim(c, mode, data, a, b, n).trades == Seq::<Trade>::empty(),
        total_pnl_spec(sim(c, mode, data, a, b, n).trades) == 0,
        sim(c, mode, data, a, b, n).curve.len() == n + 1,
        forall|i: int|
            0 <= i < n + 1 ==> (#[trigger] sim(c, mode, data, a, b, n).curve[i]).equity
                == c.initial_capital as i128 && sim(c, mode, data, a, b, n).curve[i].drawdown == 0,
    decreases n,
{
    if n > 0 {
        lemma_all_hold_is_flat(c, mode, data, a, b, n - 1);
        let s = sim(c, mode, data, a, b, n - 1);
        assert(sim(c, mode, data, a, b, n) == sim_step(c, mode, s, data[n - 1], a[n - 1], b[n - 1]));
        assert(div_trunc((c.initial_capital - c.initial_capital) * (SCALE as int),
            c.initial_capital) == 0);
    }
}

/// A buy-and-hold run over non-declining prices: the first producer buys
/// on the first tick and holds afterwards (in its single-producer mode),
/// and the price never falls. The long position's equity then never
/// declines, no trade closes (so none loses), and the maximum drawdown is
/// exactly zero.
pub proof fn lemma_buy_and_hold_no_drawdown(
    c: Config,
    data: Seq<ProcessedMarketData>,
    a: Seq<Signal>,
    b: Seq<Signal>,
    n: int,
)
    requires
        valid_config(c),
        1 <= n <= data.len(),
        forall|i: int| 0 <= i < data.len() ==> (#[trigger] data[i]).valid(),
        a[0] == Signal::Buy,
        forall|i: int| 1 <= i < n ==> (#[trigger] a[i]) == Signal::Hold,
        forall|i: int|
            0 <= i < n - 1 ==> (#[trigger] data[i].raw_data.price) as int <= data[i
                + 1].raw_data.price as int,
    ensures
        sim(c, StrategyMode::Rsi, data, a, b, n).trades == Seq::<Trade>::empty(),
        max_drawdown_spec(c.initial_capital, sim(c, StrategyMode::Rsi, data, a, b, n).curve) == 0,
{
    lemma_buy_and_hold_curve(c, data, a, b, n);
    let curve = sim(c, StrategyMode::Rsi, data, a, b, n).curve;
    lemma_no_drawdown_when_equity_nondecreasing(c.initial_capital, curve);
}

/// Helper for the buy-and-hold law: after the opening tick the position is
/// the long opened there, no trade ever closes, and the equity curve never
/// declines from its initial value.
#[verifier::rlimit(60)]
proof fn lemma_buy_and_hold_curve(
    c: Config,
    data: Seq<ProcessedMarketData>,
    a: Seq<Signal>,
    b: Seq<Signal>,
    n: int,
)
    requires
        valid_config(c),
        1 <= n <= data.len(),
        forall|i: int| 0 <= i < data.len() ==> (#[trigger] data[i]).valid(),
        a[0] == Signal::Buy,
        forall|i: int| 1 <= i < n ==> (#[trigger] a[i]) == Signal::Hold,
        forall|i: int|
            0 <= i < n - 1 ==> (#[trigger] data[i].raw_data.price) as int <= data[i
                + 1].raw_data.price as int,
    ensures
        sim(c, StrategyMode::Rsi, data, a, b, n).trades == Seq::<Trade>::empty(),
        sim(c, StrategyMode::Rsi, data, a, b, n).pos == Some(
            open_trade(
                c,
                StrategyMode::Rsi,
                PositionType::Long,
                data[0].raw_data.timestamp,
                data[0].raw_data.price,
            ),
        ),
        sim(c, StrategyMode::Rsi, data, a, b, n).curve.len() == n + 1,
        sim(c, StrategyMode::Rsi, data, a, b, n).curve[0].equity == c.initial_capital as i128,
        sim(c, StrategyMode::Rsi, data, a, b, n).curve.last().equity == equity_now(
            c,
            sim(c, StrategyMode::Rsi, data, a, b, n).pos,
            data[n - 1].raw_data.price as int,
        ) as i128,
        forall|j: int|
            0 <= j < n ==> (#[trigger] sim(c, StrategyMode::Rsi, data, a, b, n).curve[j]).equity
                as int <= sim(c, StrategyMode::Rsi, data, a, b, n).curve[j + 1].equity as int,
    decreases n,
{
    let mode = StrategyMode::Rsi;
    let t0 = open_trade(
        c,
        mode,
        PositionType::Long,
        data[0].raw_data.timestamp,
        data[0].raw_data.price,
    );
    lemma_sim_wf(c, mode, data, a, b, n);
    if n == 1 {
        let s0 = sim(c, mode, data, a, b, 0);
        assert(sim(c, mode, data, a, b, 1) == sim_step(c, mode, s0, data[0], a[0], b[0]));
        let p0 = data[0].raw_data.price as int;
        assert(equity_now(c, Some(t0), p0) == c.initial_capital);
    } else {
        lemma_buy_and_hold_curve(c, data, a, b, n - 1);
        let s = sim(c, mode, data, a, b, n - 1);
        assert(sim(c, mode, data, a, b, n) == sim_step(c, mode, s, data[n - 1], a[n - 1], b[n
            - 1]));
        let p_prev = data[n - 2].raw_data.price as int;
        let p_here = data[n - 1].raw_data.price as int;
        lemma_quantity_bounds(c, data[0].raw_data.price as int);
        lemma_value_monotone(p_prev, p_here, t0.quantity as int);
        assert(equity_now(c, Some(t0), p_prev) <= equity_now(c, Some(t0), p_here));
        lemma_equity_bounds(c, Some(t0), p_prev);
        lemma_equity_bounds(c, Some(t0), p_here);
        let curve = sim(c, mode, data, a, b, n).curve;
        assert(decide_spec(mode, a[n - 1], b[n - 1]) == Some(TradeSignal::Hold));
        assert(sim(c, mode, data, a, b, n).pos == Some(t0));
        assert(curve == s.curve.push(tick_point(c, Some(t0), data[n - 1])));
        assert(curve[n - 1] == s.curve.last());
        assert(curve[n - 1].equity == equity_now(c, Some(t0), p_prev) as i128);
        assert(curve[n].equity == equity_now(c, Some(t0), p_here) as i128);
        assert((equity_now(c, Some(t0), p_prev) as i128) as int == equity_now(c, Some(t0), p_prev));
        assert((equity_now(c, Some(t0), p_here) as i128) as int == equity_now(c, Some(t0), p_here));
        assert(forall|j: int|
            0 <= j < n - 1 ==> (#[trigger] curve[j]).equity as int <= curve[j + 1].equity as int);
        assert(curve[n - 1].equity as int <= curve[n].equity as int);
    }
}

/// Determinism: two results that both satisfy the run contract over the
/// same configuration, mode and input sequences report identical values in
/// every field, including the full trade list.
pub proof fn lemma_run_deterministic(
    c: Config,
    mode: StrategyMode,
    data: Seq<ProcessedMarketData>,
    a: Seq<Signal>,
    b: Seq<Signal>,
    r1: BacktestResult,
    r2: BacktestResult,
)
    requires
        result_matches(c, mode, data, a, b, r1),
        result_matches(c, mode, data, a, b, r2),
    ensures
        r1.total_trades == r2.total_trades,
        r1.winning_trades == r2.winning_trades,
        r1.losing_trades == r2.losing_trades,
        r1.total_pnl == r2.total_pnl,
        r1.win_rate == r2.win_rate,
        r1.average_win == r2.average_win,
        r1.average_loss == r2.average_loss,
        r1.largest_win == r2.largest_win,
        r1.largest_loss == r2.largest_loss,
        r1.max_drawdown == r2.max_drawdown,
        r1.sharpe_ratio == r2.sharpe_ratio,
        r1.trades@ == r2.trades@,
{
}

} // verus!
