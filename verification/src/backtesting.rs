//! The backtesting engine: signal aggregation, the position ledger and the
//! equity/risk tracker, driven tick by tick over a processed price series.
//!
//! Signal producers are external collaborators: a run takes the two
//! producers' per-tick classifications as input sequences, so the engine is
//! a pure function of its configuration and inputs.

use vstd::prelude::*;
use crate::fixed::{
    abs_i, clamp_ret, div_i128, div_trunc, isqrt_u128, lemma_div_trunc_bound,
    lemma_div_trunc_nonneg, sqrt_floor, MAX_AMOUNT, MAX_PRICE, MAX_RATE, MAX_TICKS, RET_CAP, SCALE,
};
use crate::market::ProcessedMarketData;

verus! {

/// Largest representable position quantity, `MAX_AMOUNT * SCALE / 1`.
pub const QTY_CAP: i128 = 10_000_000_000_000_000;

/// Largest representable position valuation, `MAX_PRICE * QTY_CAP / SCALE`.
pub const VALUE_CAP: i128 = 1_000_000_000_000_000_000_000_000;

/// Bound on any single trade's realized profit or loss.
pub const PNL_CAP: i128 = 2_000_000_000_000_000_000_000_000;

/// Bound on any equity-curve value's magnitude.
pub const EQ_CAP: i128 = 3_000_000_000_000_000_000_000_000;

/// Annual risk-free rate of 0.02, in fixed-point form.
pub const RISK_FREE: i128 = 200;

/// Periods per year used to annualize the Sharpe ratio.
pub const PERIODS_PER_YEAR: i128 = 252;

/// Directional bias of a position: long rises, short falls.
#[derive(Debug, Clone, Copy, PartialEq, Eq, Structural)]
pub enum PositionType {
    Long,
    Short,
}

/// How the two producers' signals are reconciled into one decision.
#[derive(Debug, Clone, Copy, PartialEq, Eq, Structural)]
pub enum StrategyMode {
    Rsi,
    BollingerBands,
    Combined,
}

/// A trading action communicated to the position ledger.
#[derive(Debug, Clone, Copy, PartialEq, Eq, Structural)]
pub enum TradeSignal {
    Buy,
    Sell,
    Hold,
    Long,
    Short,
}

/// A signal producer's per-tick classification.
#[derive(Debug, Clone, Copy, PartialEq, Eq, Structural)]
pub enum Signal {
    Buy,
    Sell,
    Hold,
}

/// A position from entry to (possible) exit. While the position is open,
/// `exit_time`, `exit_price` and `pnl` are `None`; closing fills all three.
#[derive(Debug, Clone, Copy, PartialEq)]
pub struct Trade {
    pub entry_time: i64,
    pub exit_time: Option<i64>,
    pub entry_price: i64,
    pub exit_price: Option<i64>,
    pub position_type: PositionType,
    pub quantity: i128,
    pub pnl: Option<i128>,
    pub strategy: StrategyMode,
}

/// One point of the equity curve: the portfolio value at a tick and its
/// decline relative to the initial capital (fixed-point fraction).
#[derive(Debug, Clone, Copy, PartialEq)]
pub struct EquityPoint {
    pub timestamp: i64,
    pub equity: i128,
    pub drawdown: i128,
}

/// Aggregate outcome of one backtest run. Ratios (`win_rate`,
/// `max_drawdown`) and the Sharpe ratio are fixed-point fractions.
#[derive(Debug, Clone, PartialEq)]
pub struct BacktestResult {
    pub total_trades: usize,
    pub winning_trades: usize,
    pub losing_trades: usize,
    pub total_pnl: i128,
    pub win_rate: i128,
    pub average_win: i128,
    pub average_loss: i128,
    pub largest_win: i128,
    pub largest_loss: i128,
    pub max_drawdown: i128,
    pub sharpe_ratio: i128,
    pub trades: Vec<Trade>,
}

/// A rejected engine configuration.
#[derive(Debug, Clone, Copy, PartialEq, Eq, Structural)]
pub enum ConfigError {
    InitialCapitalOutOfRange,
    PositionSizeOutOfRange,
    CommissionRateOutOfRange,
}

/// The engine's configuration, as mathematical integers (ghost use only).
pub struct Config {
    pub initial_capital: int,
    pub position_size: int,
    pub commission_rate: int,
}

/// A configuration the engine accepts: positive capital and position size,
/// non-negative commission rate, all within the fixed-point range.
pub open spec fn valid_config(c: Config) -> bool {
    &&& 1 <= c.initial_capital <= MAX_AMOUNT
    &&& 1 <= c.position_size <= MAX_AMOUNT
    &&& 0 <= c.commission_rate <= MAX_RATE
}

/// A producer signal carried over into a ledger action unchanged.
pub open spec fn convert_signal(s: Signal) -> TradeSignal {
    match s {
        Signal::Buy => TradeSignal::Buy,
        Signal::Sell => TradeSignal::Sell,
        Signal::Hold => TradeSignal::Hold,
    }
}

/// Whether two producer signals agree: the same non-Hold direction, or one
/// direction and one Hold. Two Holds, or opposite directions, do not agree.
pub open spec fn signals_agree_spec(a: Signal, b: Signal) -> bool {
    match (a, b) {
        (Signal::Buy, Signal::Buy) => true,
        (Signal::Sell, Signal::Sell) => true,
        (Signal::Buy, Signal::Hold) => true,
        (Signal::Hold, Signal::Buy) => true,
        (Signal::Sell, Signal::Hold) => true,
        (Signal::Hold, Signal::Sell) => true,
        _ => false,
    }
}

/// The trade decision for one tick: pass-through in the single-producer
/// modes; in combined mode a decision is made only when the producers
/// agree, and whenever producer B is not Hold, B's signal is preferred.
pub open spec fn decide_spec(mode: StrategyMode, a: Signal, b: Signal) -> Option<TradeSignal> {
    match mode {
        StrategyMode::Rsi => Some(convert_signal(a)),
        StrategyMode::BollingerBands => Some(convert_signal(b)),
        StrategyMode::Combined => if signals_agree_spec(a, b) {
            if b != Signal::Hold {
                Some(convert_signal(b))
            } else {
                Some(convert_signal(a))
            }
        } else {
            None
        },
    }
}

/// Quantity bought for a fixed currency amount at `price`:
/// `position_size / price`, rounded toward zero.
pub open spec fn quantity_of(position_size: int, price: int) -> int {
    div_trunc(position_size * (SCALE as int), price)
}

/// Flat commission charged on closing: `position_size * commission_rate`.
pub open spec fn commission_of(position_size: int, rate: int) -> int {
    div_trunc(position_size * rate, SCALE as int)
}

/// Currency value of `qty` units at `price`.
pub open spec fn value_of(price: int, qty: int) -> int {
    div_trunc(price * qty, SCALE as int)
}

/// The position opened by a decision at one tick.
pub open spec fn open_trade(
    c: Config,
    mode: StrategyMode,
    dir: PositionType,
    ts: i64,
    price: i64,
) -> Trade {
    Trade {
        entry_time: ts,
        exit_time: None,
        entry_price: price,
        exit_price: None,
        position_type: dir,
        quantity: quantity_of(c.position_size, price as int) as i128,
        pnl: None,
        strategy: mode,
    }
}

/// Realized profit or loss of closing `t` at `price`: the signed change in
/// the position's valuation, less the flat commission.
pub open spec fn close_pnl(c: Config, t: Trade, price: i64) -> int {
    let comm = commission_of(c.position_size, c.commission_rate);
    match t.position_type {
        PositionType::Long => value_of(price as int, t.quantity as int) - value_of(
            t.entry_price as int,
            t.quantity as int,
        ) - comm,
        PositionType::Short => value_of(t.entry_price as int, t.quantity as int) - value_of(
            price as int,
            t.quantity as int,
        ) - comm,
    }
}

/// The trade `t` closed at `price`.
pub open spec fn closed_trade(c: Config, t: Trade, ts: i64, price: i64) -> Trade {
    Trade {
        exit_time: Some(ts),
        exit_price: Some(price),
        pnl: Some(close_pnl(c, t, price) as i128),
        ..t
    }
}

/// The position ledger after one decision, and the trade it closed, if any.
pub struct LedgerStep {
    pub pos: Option<Trade>,
    pub closed: Option<Trade>,
}

/// The ledger's transition table. Buy opens a long when flat, closes and
/// reverses a short; Sell opens a short when flat, closes and reverses a
/// long; everything else leaves the ledger unchanged.
pub open spec fn execute_trade_spec(
    c: Config,
    mode: StrategyMode,
    pos: Option<Trade>,
    sig: TradeSignal,
    ts: i64,
    price: i64,
) -> LedgerStep {
    match (sig, pos) {
        (TradeSignal::Buy, Option::None) => LedgerStep {
            pos: Some(open_trade(c, mode, PositionType::Long, ts, price)),
            closed: None,
        },
        (TradeSignal::Sell, Option::None) => LedgerStep {
            pos: Some(open_trade(c, mode, PositionType::Short, ts, price)),
            closed: None,
        },
        (TradeSignal::Sell, Option::Some(t)) => if t.position_type == PositionType::Long {
            LedgerStep {
                pos: Some(open_trade(c, mode, PositionType::Short, ts, price)),
                closed: Some(closed_trade(c, t, ts, price)),
            }
        } else {
            LedgerStep { pos, closed: None }
        },
        (TradeSignal::Buy, Option::Some(t)) => if t.position_type == PositionType::Short {
            LedgerStep {
                pos: Some(open_trade(c, mode, PositionType::Long, ts, price)),
                closed: Some(closed_trade(c, t, ts, price)),
            }
        } else {
            LedgerStep { pos, closed: None }
        },
        _ => LedgerStep { pos, closed: None },
    }
}

/// Unrealized profit or loss of the open trade `t` at `price`.
pub open spec fn unrealized_pnl(t: Trade, price: int) -> int {
    match t.position_type {
        PositionType::Long => value_of(price, t.quantity as int) - value_of(
            t.entry_price as int,
            t.quantity as int,
        ),
        PositionType::Short => value_of(t.entry_price as int, t.quantity as int) - value_of(
            price,
            t.quantity as int,
        ),
    }
}

/// Current equity: the static initial capital plus the unrealized profit or
/// loss of the currently open position, if any. Realized results of closed
/// trades are deliberately not folded back in.
pub open spec fn equity_now(c: Config, pos: Option<Trade>, price: int) -> int {
    c.initial_capital + match pos {
        Option::Some(t) => unrealized_pnl(t, price),
        Option::None => 0,
    }
}

/// A trade whose numeric fields lie in the fixed-point range.
pub open spec fn trade_wf(t: Trade) -> bool {
    &&& 1 <= t.entry_price <= MAX_PRICE
    &&& 0 <= t.quantity <= QTY_CAP
    &&& (t.pnl is Some ==> abs_i(t.pnl.unwrap() as int) <= PNL_CAP)
}

/// The abstract state of one run: the open position, the closed trades so
/// far, and the equity curve so far.
pub struct SimState {
    pub pos: Option<Trade>,
    pub trades: Seq<Trade>,
    pub curve: Seq<EquityPoint>,
}

/// The seed equity point recorded before any tick is processed. Its
/// timestamp derives from the input (the first tick's, or zero for an empty
/// run), never from a clock.
pub open spec fn seed_point(c: Config, data: Seq<ProcessedMarketData>) -> EquityPoint {
    EquityPoint {
        timestamp: if data.len() > 0 {
            data[0].raw_data.timestamp
        } else {
            0
        },
        equity: c.initial_capital as i128,
        drawdown: 0,
    }
}

/// The equity point recorded after one tick: current equity, and its
/// decline relative to the static initial capital.
pub open spec fn tick_point(c: Config, pos: Option<Trade>, md: ProcessedMarketData) -> EquityPoint {
    let eq = equity_now(c, pos, md.raw_data.price as int);
    EquityPoint {
        timestamp: md.raw_data.timestamp,
        equity: eq as i128,
        drawdown: div_trunc((c.initial_capital - eq) * (SCALE as int), c.initial_capital) as i128,
    }
}

/// One tick of the run: resolve a decision, apply it to the ledger, then
/// record an equity point.
pub open spec fn sim_step(
    c: Config,
    mode: StrategyMode,
    s: SimState,
    md: ProcessedMarketData,
    a: Signal,
    b: Signal,
) -> SimState {
    let s1 = match decide_spec(mode, a, b) {
        Option::Some(sig) => {
            let st = execute_trade_spec(
                c,
                mode,
                s.pos,
                sig,
                md.raw_data.timestamp,
                md.raw_data.price,
            );
            SimState {
                pos: st.pos,
                trades: if st.closed is Some {
                    s.trades.push(st.closed.unwrap())
                } else {
                    s.trades
                },
                curve: s.curve,
            }
        },
        Option::None => s,
    };
    SimState { curve: s1.curve.push(tick_point(c, s1.pos, md)), ..s1 }
}

/// The run's state after the first `n` ticks.
pub open spec fn sim(
    c: Config,
    mode: StrategyMode,
    data: Seq<ProcessedMarketData>,
    a: Seq<Signal>,
    b: Seq<Signal>,
    n: int,
) -> SimState
    decreases n,
{
    if n <= 0 {
        SimState { pos: None, trades: Seq::empty(), curve: seq![seed_point(c, data)] }
    } else {
        sim_step(c, mode, sim(c, mode, data, a, b, n - 1), data[n - 1], a[n - 1], b[n - 1])
    }
}

/// Every numeric quantity of a run state lies in the fixed-point range; an
/// open position has no realized result yet, every closed trade has one.
pub open spec fn state_wf(s: SimState) -> bool {
    &&& (s.pos is Some ==> trade_wf(s.pos.unwrap()) && s.pos.unwrap().pnl is None)
    &&& (forall|i: int|
        0 <= i < s.trades.len() ==> trade_wf(#[trigger] s.trades[i]) && s.trades[i].pnl is Some)
    &&& s.curve.len() >= 1
    &&& (forall|i: int| 0 <= i < s.curve.len() ==> abs_i(#[trigger] s.curve[i].equity as int) <= EQ_CAP)
}

/// Quantities computed from an accepted configuration and price are in range.
pub proof fn lemma_quantity_bounds(c: Config, price: int)
    requires
        valid_config(c),
        1 <= price <= MAX_PRICE,
    ensures
        0 <= quantity_of(c.position_size, price) <= QTY_CAP,
{
    let a = c.position_size * (SCALE as int);
    assert(0 <= a <= QTY_CAP) by (nonlinear_arith)
        requires
            a == c.position_size * (SCALE as int),
            1 <= c.position_size <= MAX_AMOUNT,
    ;
    assert(0 <= a / price <= a) by (nonlinear_arith)
        requires
            a >= 0,
            price >= 1,
    ;
}

/// Commissions computed from an accepted configuration are in range.
pub proof fn lemma_commission_bounds(c: Config)
    requires
        valid_config(c),
    ensures
        0 <= commission_of(c.position_size, c.commission_rate) <= 100_000_000_000_000,
{
    let a = c.position_size * c.commission_rate;
    assert(0 <= a <= 1_000_000_000_000_000_000) by (nonlinear_arith)
        requires
            a == c.position_size * c.commission_rate,
            1 <= c.position_size <= MAX_AMOUNT,
            0 <= c.commission_rate <= MAX_RATE,
    ;
    assert(0 <= a / (SCALE as int) <= 100_000_000_000_000) by (nonlinear_arith)
        requires
            0 <= a <= 1_000_000_000_000_000_000,
    ;
}

/// Position valuations over in-range prices and quantities are in range.
pub proof fn lemma_value_bounds(price: int, qty: int)
    requires
        1 <= price <= MAX_PRICE,
        0 <= qty <= QTY_CAP,
    ensures
        0 <= value_of(price, qty) <= VALUE_CAP,
{
    let a = price * qty;
    assert(0 <= a <= 10_000_000_000_000_000_000_000_000_000) by (nonlinear_arith)
        requires
            a == price * qty,
            1 <= price <= MAX_PRICE,
            0 <= qty <= QTY_CAP,
    ;
    assert(0 <= a / (SCALE as int) <= VALUE_CAP) by (nonlinear_arith)
        requires
            0 <= a <= 10_000_000_000_000_000_000_000_000_000,
    ;
}

/// A position's valuation is monotone in the price.
pub proof fn lemma_value_monotone(p1: int, p2: int, q: int)
    requires
        0 <= q,
        0 <= p1 <= p2,
    ensures
        value_of(p1, q) <= value_of(p2, q),
{
    assert(0 <= p1 * q <= p2 * q) by (nonlinear_arith)
        requires
            0 <= q,
            0 <= p1 <= p2,
    ;
    lemma_div_trunc_nonneg(p1 * q, SCALE as int);
    lemma_div_trunc_nonneg(p2 * q, SCALE as int);
    assert((p1 * q) / (SCALE as int) <= (p2 * q) / (SCALE as int)) by (nonlinear_arith)
        requires
            0 <= p1 * q <= p2 * q,
    ;
}

/// A realized result computed from in-range operands is in range.
pub proof fn lemma_close_pnl_bounds(c: Config, t: Trade, price: i64)
    requires
        valid_config(c),
        trade_wf(t),
        1 <= price <= MAX_PRICE,
    ensures
        abs_i(close_pnl(c, t, price)) <= PNL_CAP,
{
    lemma_value_bounds(price as int, t.quantity as int);
    lemma_value_bounds(t.entry_price as int, t.quantity as int);
    lemma_commission_bounds(c);
}

/// An equity value computed from in-range operands is in range.
pub proof fn lemma_equity_bounds(c: Config, pos: Option<Trade>, price: int)
    requires
        valid_config(c),
        pos is Some ==> trade_wf(pos.unwrap()),
        1 <= price <= MAX_PRICE,
    ensures
        abs_i(equity_now(c, pos, price)) <= EQ_CAP,
{
    if pos is Some {
        let t = pos.unwrap();
        lemma_value_bounds(price, t.quantity as int);
        lemma_value_bounds(t.entry_price as int, t.quantity as int);
    }
}

/// Every state the run passes through is well formed, the curve grows by
/// exactly one point per tick, and at most one trade closes per tick.
pub proof fn lemma_sim_wf(
    c: Config,
    mode: StrategyMode,
    data: Seq<ProcessedMarketData>,
    a: Seq<Signal>,
    b: Seq<Signal>,
    n: int,
)
    requires
        valid_config(c),
        0 <= n <= data.len(),
        forall|i: int| 0 <= i < data.len() ==> (#[trigger] data[i]).valid(),
    ensures
        state_wf(sim(c, mode, data, a, b, n)),
        sim(c, mode, data, a, b, n).curve.len() == n + 1,
        sim(c, mode, data, a, b, n).trades.len() <= n,
    decreases n,
{
    if n <= 0 {
        assert(abs_i(c.initial_capital) <= EQ_CAP);
    } else {
        lemma_sim_wf(c, mode, data, a, b, n - 1);
        let s = sim(c, mode, data, a, b, n - 1);
        let md = data[n - 1];
        assert(md.valid());
        let price = md.raw_data.price;
        let ts = md.raw_data.timestamp;
        lemma_quantity_bounds(c, price as int);
        match decide_spec(mode, a[n - 1], b[n - 1]) {
            Option::Some(sig) => {
                let st = execute_trade_spec(c, mode, s.pos, sig, ts, price);
                if st.closed is Some {
                    lemma_close_pnl_bounds(c, s.pos.unwrap(), price);
                }
                if st.pos is Some {
                    lemma_equity_bounds(c, st.pos, price as int);
                } else {
                    lemma_equity_bounds(c, st.pos, price as int);
                }
            },
            Option::None => {
                lemma_equity_bounds(c, s.pos, price as int);
            },
        }
    }
}

/// The backtesting engine: a validated configuration together with the
/// per-run state (open position, closed trades, equity curve).
///
/// Each run starts by resetting the per-run state, so one engine instance
/// can be reused across strategy modes without cross-contamination.
#[derive(Debug)]
pub struct Backtester {
    initial_capital: i64,
    position_size: i64,
    commission_rate: i64,
    strategy_mode: StrategyMode,
    trades: Vec<Trade>,
    current_position: Option<Trade>,
    equity_curve: Vec<EquityPoint>,
}

impl Backtester {
    /// Configured starting portfolio value (fixed point).
    pub closed spec fn initial_capital(&self) -> i64 {
        self.initial_capital
    }

    /// Configured fixed currency amount per trade (fixed point).
    pub closed spec fn position_size(&self) -> i64 {
        self.position_size
    }

    /// Configured commission rate (fixed-point fraction of the position size).
    pub closed spec fn commission_rate(&self) -> i64 {
        self.commission_rate
    }

    /// Currently configured strategy mode.
    pub closed spec fn mode(&self) -> StrategyMode {
        self.strategy_mode
    }

    /// Closed trades of the current run, oldest first.
    pub closed spec fn trades_view(&self) -> Seq<Trade> {
        self.trades@
    }

    /// The currently open position, if any.
    pub closed spec fn position(&self) -> Option<Trade> {
        self.current_position
    }

    /// Equity curve of the current run.
    pub closed spec fn curve_view(&self) -> Seq<EquityPoint> {
        self.equity_curve@
    }

    /// The configuration as mathematical integers.
    pub open spec fn cfg(&self) -> Config {
        Config {
            initial_capital: self.initial_capital() as int,
            position_size: self.position_size() as int,
            commission_rate: self.commission_rate() as int,
        }
    }

    /// The engine always carries an accepted configuration.
    pub open spec fn wf(&self) -> bool {
        valid_config(self.cfg())
    }

    /// Validates the configuration and creates an engine over it, in
    /// combined mode, with an empty run state.
    ///
    /// Fails fast exactly when a parameter is outside its admissible range
    /// (capital checked first, then position size, then commission rate).
    pub fn new(initial_capital: i64, position_size: i64, commission_rate: i64) -> (r: Result<
        Backtester,
        ConfigError,
    >)
        ensures
            r is Ok <==> (1 <= initial_capital <= MAX_AMOUNT && 1 <= position_size <= MAX_AMOUNT
                && 0 <= commission_rate <= MAX_RATE),
            !(1 <= initial_capital <= MAX_AMOUNT) ==> r == Err::<Backtester, ConfigError>(
                ConfigError::InitialCapitalOutOfRange,
            ),
            (1 <= initial_capital <= MAX_AMOUNT && !(1 <= position_size <= MAX_AMOUNT)) ==> r
                == Err::<Backtester, ConfigError>(ConfigError::PositionSizeOutOfRange),
            (1 <= initial_capital <= MAX_AMOUNT && 1 <= position_size <= MAX_AMOUNT && !(0
                <= commission_rate <= MAX_RATE)) ==> r == Err::<Backtester, ConfigError>(
                ConfigError::CommissionRateOutOfRange,
            ),
            r is Ok ==> {
                let bt = r.unwrap();
                &&& bt.wf()
                &&& bt.initial_capital() == initial_capital
                &&& bt.position_size() == position_size
                &&& bt.commission_rate() == commission_rate
                &&& bt.mode() == StrategyMode::Combined
                &&& bt.trades_view() == Seq::<Trade>::empty()
                &&& bt.position() is None
                &&& bt.curve_view() == seq![
                    EquityPoint {
                        timestamp: 0,
                        equity: initial_capital as i128,
                        drawdown: 0,
                    },
                ]
            },
    {
        if initial_capital < 1 || initial_capital > MAX_AMOUNT {
            return Err(ConfigError::InitialCapitalOutOfRange);
        }
        if position_size < 1 || position_size > MAX_AMOUNT {
            return Err(ConfigError::PositionSizeOutOfRange);
        }
        if commission_rate < 0 || commission_rate > MAX_RATE {
            return Err(ConfigError::CommissionRateOutOfRange);
        }
        let mut equity_curve: Vec<EquityPoint> = Vec::new();
        equity_curve.push(
            EquityPoint { timestamp: 0, equity: initial_capital as i128, drawdown: 0 },
        );
        Ok(
            Backtester {
                initial_capital,
                position_size,
                commission_rate,
                strategy_mode: StrategyMode::Combined,
                trades: Vec::new(),
                current_position: None,
                equity_curve,
            },
        )
    }

    /// Switches the strategy mode; the configuration and the run state are
    /// untouched.
    pub fn set_strategy_mode(&mut self, mode: StrategyMode)
        ensures
            final(self).mode() == mode,
            final(self).cfg() == old(self).cfg(),
            final(self).trades_view() == old(self).trades_view(),
            final(self).position() == old(self).position(),
            final(self).curve_view() == old(self).curve_view(),
            old(self).wf() ==> final(self).wf(),
    {
        self.strategy_mode = mode;
    }

    /// Read access to the equity curve of the most recent run.
    pub fn equity_curve(&self) -> (r: &Vec<EquityPoint>)
        ensures
            r@ == self.curve_view(),
    {
        &self.equity_curve
    }

    /// Whether the producers' signals agree for one tick.
    pub fn signals_agree(rsi_signal: Signal, bollinger_signal: Signal) -> (r: bool)
        ensures
            r == signals_agree_spec(rsi_signal, bollinger_signal),
    {
        match (rsi_signal, bollinger_signal) {
            (Signal::Buy, Signal::Buy) => true,
            (Signal::Sell, Signal::Sell) => true,
            (Signal::Buy, Signal::Hold) => true,
            (Signal::Hold, Signal::Buy) => true,
            (Signal::Sell, Signal::Hold) => true,
            (Signal::Hold, Signal::Sell) => true,
            _ => false,
        }
    }

    /// Maps the first producer's classification to a ledger action.
    fn convert_rsi_to_trade_signal(signal: Signal) -> (r: TradeSignal)
        ensures
            r == convert_signal(signal),
    {
        match signal {
            Signal::Buy => TradeSignal::Buy,
            Signal::Sell => TradeSignal::Sell,
            Signal::Hold => TradeSignal::Hold,
        }
    }

    /// Maps the second producer's classification to a ledger action.
    fn convert_bollinger_to_trade_signal(signal: Signal) -> (r: TradeSignal)
        ensures
            r == convert_signal(signal),
    {
        match signal {
            Signal::Buy => TradeSignal::Buy,
            Signal::Sell => TradeSignal::Sell,
            Signal::Hold => TradeSignal::Hold,
        }
    }

    /// Resolves one tick's trade decision under `mode` (the signal
    /// aggregator of the engine).
    pub fn decide(mode: StrategyMode, rsi_signal: Signal, bollinger_signal: Signal) -> (r: Option<
        TradeSignal,
    >)
        ensures
            r == decide_spec(mode, rsi_signal, bollinger_signal),
    {
        match mode {
            StrategyMode::Rsi => Some(Self::convert_rsi_to_trade_signal(rsi_signal)),
            StrategyMode::BollingerBands => Some(
                Self::convert_bollinger_to_trade_signal(bollinger_signal),
            ),
            StrategyMode::Combined => {
                if Self::signals_agree(rsi_signal, bollinger_signal) {
                    match bollinger_signal {
                        Signal::Hold => Some(Self::convert_rsi_to_trade_signal(rsi_signal)),
                        _ => Some(Self::convert_bollinger_to_trade_signal(bollinger_signal)),
                    }
                } else {
                    None
                }
            },
        }
    }

    /// Commission for a trade of notional `trade_value`.
    fn calculate_commission(&self, trade_value: i64) -> (r: i128)
        requires
            self.wf(),
            0 <= trade_value <= MAX_AMOUNT,
        ensures
            r == commission_of(trade_value as int, self.commission_rate() as int),
            0 <= r <= 100_000_000_000_000,
    {
        proof {
            assert(0 <= (trade_value as int) * (self.commission_rate as int)
                <= 1_000_000_000_000_000_000) by (nonlinear_arith)
                requires
                    0 <= trade_value as int <= MAX_AMOUNT,
                    0 <= self.commission_rate as int <= MAX_RATE,
            ;
        }
        let a: i128 = (trade_value as i128) * (self.commission_rate as i128);
        let r = div_i128(a, SCALE);
        proof {
            assert(0 <= a as int / (SCALE as int) <= 100_000_000_000_000) by (nonlinear_arith)
                requires
                    0 <= a <= 1_000_000_000_000_000_000,
            ;
        }
        r
    }

    /// Currency value of `qty` units at `price`, executable form.
    fn position_value(price: i64, qty: i128) -> (v: i128)
        requires
            1 <= price <= MAX_PRICE,
            0 <= qty <= QTY_CAP,
        ensures
            v == value_of(price as int, qty as int),
            0 <= v <= VALUE_CAP,
    {
        proof {
            assert(0 <= (price as int) * (qty as int) <= 10_000_000_000_000_000_000_000_000_000)
                by (nonlinear_arith)
                requires
                    1 <= price as int <= MAX_PRICE,
                    0 <= qty as int <= QTY_CAP,
            ;
        }
        let a: i128 = (price as i128) * qty;
        let v = div_i128(a, SCALE);
        proof {
            assert(0 <= a as int / (SCALE as int) <= VALUE_CAP) by (nonlinear_arith)
                requires
                    0 <= a <= 10_000_000_000_000_000_000_000_000_000,
            ;
        }
        v
    }

    /// Quantity opened for the configured position size at `price`.
    fn trade_quantity(&self, price: i64) -> (q: i128)
        requires
            self.wf(),
            1 <= price <= MAX_PRICE,
        ensures
            q == quantity_of(self.position_size() as int, price as int),
            0 <= q <= QTY_CAP,
    {
        proof {
            assert(0 <= (self.position_size as int) * (SCALE as int) <= QTY_CAP)
                by (nonlinear_arith)
                requires
                    1 <= self.position_size as int <= MAX_AMOUNT,
            ;
        }
        let a: i128 = (self.position_size as i128) * SCALE;
        let q = div_i128(a, price as i128);
        proof {
            assert(0 <= a as int / (price as int) <= a) by (nonlinear_arith)
                requires
                    0 <= a,
                    1 <= price as int,
            ;
        }
        q
    }

    /// Applies one trade decision to the position ledger, exactly as
    /// [`execute_trade_spec`] describes.
    fn execute_trade(&mut self, market_data: &ProcessedMarketData, signal: TradeSignal)
        requires
            old(self).wf(),
            market_data.valid(),
            old(self).position() is Some ==> trade_wf(old(self).position().unwrap()),
        ensures
            final(self).wf(),
            final(self).cfg() == old(self).cfg(),
            final(self).mode() == old(self).mode(),
            final(self).curve_view() == old(self).curve_view(),
            ({
                let st = execute_trade_spec(
                    old(self).cfg(),
                    old(self).mode(),
                    old(self).position(),
                    signal,
                    market_data.raw_data.timestamp,
                    market_data.raw_data.price,
                );
                &&& final(self).position() == st.pos
                &&& final(self).trades_view() == (if st.closed is Some {
                    old(self).trades_view().push(st.closed.unwrap())
                } else {
                    old(self).trades_view()
                })
            }),
    {
        let current_price = market_data.raw_data.price;
        let ts = market_data.raw_data.timestamp;
        let trade_quantity = self.trade_quantity(current_price);
        let ps = self.position_size;
        let commission = self.calculate_commission(ps);
        let mode = self.strategy_mode;
        match (signal, self.current_position) {
            (TradeSignal::Buy, None) => {
                self.current_position = Some(
                    Trade {
                        entry_time: ts,
                        exit_time: None,
                        entry_price: current_price,
                        exit_price: None,
                        position_type: PositionType::Long,
                        quantity: trade_quantity,
                        pnl: None,
                        strategy: mode,
                    },
                );
            },
            (TradeSignal::Sell, None) => {
                self.current_position = Some(
                    Trade {
                        entry_time: ts,
                        exit_time: None,
                        entry_price: current_price,
                        exit_price: None,
                        position_type: PositionType::Short,
                        quantity: trade_quantity,
                        pnl: None,
                        strategy: mode,
                    },
                );
            },
            (TradeSignal::Sell, Some(trade)) => {
                if trade.position_type == PositionType::Long {
                    let entry_value = Self::position_value(trade.entry_price, trade.quantity);
                    let exit_value = Self::position_value(current_price, trade.quantity);
                    let pnl = exit_value - entry_value - commission;
                    let mut closed = trade;
                    closed.exit_time = Some(ts);
                    closed.exit_price = Some(current_price);
                    closed.pnl = Some(pnl);
                    self.trades.push(closed);
                    self.current_position = Some(
                        Trade {
                            entry_time: ts,
                            exit_time: None,
                            entry_price: current_price,
                            exit_price: None,
                            position_type: PositionType::Short,
                            quantity: trade_quantity,
                            pnl: None,
                            strategy: mode,
                        },
                    );
                }
            },
            (TradeSignal::Buy, Some(trade)) => {
                if trade.position_type == PositionType::Short {
                    let entry_value = Self::position_value(trade.entry_price, trade.quantity);
                    let exit_value = Self::position_value(current_price, trade.quantity);
                    let pnl = entry_value - exit_value - commission;
                    let mut closed = trade;
                    closed.exit_time = Some(ts);
                    closed.exit_price = Some(current_price);
                    closed.pnl = Some(pnl);
                    self.trades.push(closed);
                    self.current_position = Some(
                        Trade {
                            entry_time: ts,
                            exit_time: None,
                            entry_price: current_price,
                            exit_price: None,
                            position_type: PositionType::Long,
                            quantity: trade_quantity,
                            pnl: None,
                            strategy: mode,
                        },
                    );
                }
            },
            _ => {},
        }
    }

    /// Current equity: initial capital plus the open position's unrealized
    /// profit or loss at `current_price`.
    fn calculate_current_equity(&self, current_price: i64) -> (eq: i128)
        requires
            self.wf(),
            1 <= current_price <= MAX_PRICE,
            self.position() is Some ==> trade_wf(self.position().unwrap()),
        ensures
            eq == equity_now(self.cfg(), self.position(), current_price as int),
            abs_i(eq as int) <= EQ_CAP,
    {
        match self.current_position {
            None => self.initial_capital as i128,
            Some(trade) => {
                let current_value = Self::position_value(current_price, trade.quantity);
                let entry_value = Self::position_value(trade.entry_price, trade.quantity);
                let pnl: i128 = match trade.position_type {
                    PositionType::Long => current_value - entry_value,
                    PositionType::Short => entry_value - current_value,
                };
                self.initial_capital as i128 + pnl
            },
        }
    }

    /// Aggregates the run's statistics from the closed trades and the
    /// equity curve.
    fn calculate_results(&self) -> (r: BacktestResult)
        requires
            self.wf(),
            self.trades_view().len() <= MAX_TICKS,
            forall|i: int|
                0 <= i < self.trades_view().len() ==> trade_wf(#[trigger] self.trades_view()[i])
                    && self.trades_view()[i].pnl is Some,
            1 <= self.curve_view().len() <= MAX_TICKS + 1,
            forall|i: int|
                0 <= i < self.curve_view().len() ==> abs_i(
                    (#[trigger] self.curve_view()[i]).equity as int,
                ) <= EQ_CAP,
        ensures
            r.total_trades == self.trades_view().len(),
            r.winning_trades == count_winning(self.trades_view()),
            r.losing_trades == count_losing(self.trades_view()),
            r.total_pnl == total_pnl_spec(self.trades_view()),
            r.win_rate == win_rate_spec(self.trades_view()),
            r.average_win == average_win_spec(self.trades_view()),
            r.average_loss == average_loss_spec(self.trades_view()),
            r.largest_win == largest_win_spec(self.trades_view()),
            r.largest_loss == largest_loss_spec(self.trades_view()),
            r.max_drawdown == max_drawdown_spec(self.initial_capital() as int, self.curve_view()),
            r.sharpe_ratio == sharpe_spec(self.curve_view()),
            r.trades@ == self.trades_view(),
            r.total_trades == r.winning_trades + r.losing_trades,
            0 <= r.win_rate <= SCALE,
            r.total_trades == 0 ==> r.win_rate == 0,
            r.max_drawdown >= 0,
    {
        let st = compute_trade_stats(&self.trades);
        let total_trades = self.trades.len();
        proof {
            lemma_counts_partition(self.trades@);
        }
        let win_rate: i128 = if total_trades > 0 {
            proof {
                assert(0 <= (st.winning as int) * (SCALE as int) <= 1_000_000_000_000)
                    by (nonlinear_arith)
                    requires
                        0 <= st.winning as int <= 100_000_000,
                ;
                assert((st.winning as int) * (SCALE as int) <= (total_trades as int) * (
                SCALE as int)) by (nonlinear_arith)
                    requires
                        st.winning as int <= total_trades as int,
                ;
            }
            let wr = div_i128((st.winning as i128) * SCALE, total_trades as i128);
            proof {
                lemma_div_trunc_nonneg((st.winning as int) * (SCALE as int), total_trades as int);
                lemma_div_trunc_bound(
                    (st.winning as int) * (SCALE as int),
                    total_trades as int,
                    SCALE as int,
                );
            }
            wr
        } else {
            0
        };
        let average_win: i128 = if st.winning > 0 {
            div_i128(st.win_amount, st.winning as i128)
        } else {
            0
        };
        let average_loss: i128 = if st.losing > 0 {
            div_i128(st.loss_amount, st.losing as i128)
        } else {
            0
        };
        let max_drawdown = compute_max_drawdown(self.initial_capital, &self.equity_curve);
        let sharpe_ratio = compute_sharpe(&self.equity_curve);
        let mut trades_out: Vec<Trade> = Vec::new();
        let mut j: usize = 0;
        while j < total_trades
            invariant
                j <= total_trades,
                total_trades == self.trades@.len(),
                trades_out@ == self.trades@.take(j as int),
            decreases total_trades - j,
        {
            let t = self.trades[j];
            proof {
                assert(self.trades@.take(j as int + 1) =~= self.trades@.take(j as int).push(
                    self.trades@[j as int],
                ));
            }
            trades_out.push(t);
            j = j + 1;
        }
        proof {
            assert(self.trades@.take(total_trades as int) =~= self.trades@);
        }
        BacktestResult {
            total_trades,
            winning_trades: st.winning,
            losing_trades: st.losing,
            total_pnl: st.total_pnl,
            win_rate,
            average_win,
            average_loss,
            largest_win: st.largest_win,
            largest_loss: st.largest_loss,
            max_drawdown,
            sharpe_ratio,
            trades: trades_out,
        }
    }

    /// Runs the backtest: resets the per-run state, then for each tick in
    /// order resolves the two producers' signals into a decision, applies
    /// it to the position ledger, and records an equity point; finally
    /// aggregates the run's statistics.
    ///
    /// The outcome is exactly [`sim`] applied to the configuration, the
    /// mode and the inputs: a pure function of them, so two runs over
    /// identical inputs return identical results.
    #[verifier::loop_isolation(false)]
    pub fn run_backtest(
        &mut self,
        data: &Vec<ProcessedMarketData>,
        rsi_signals: &Vec<Signal>,
        bollinger_signals: &Vec<Signal>,
    ) -> (r: BacktestResult)
        requires
            old(self).wf(),
            data@.len() <= MAX_TICKS,
            rsi_signals@.len() == data@.len(),
            bollinger_signals@.len() == data@.len(),
            forall|i: int| 0 <= i < data@.len() ==> (#[trigger] data@[i]).valid(),
        ensures
            final(self).wf(),
            final(self).cfg() == old(self).cfg(),
            final(self).mode() == old(self).mode(),
            ({
                let end = sim(
                    old(self).cfg(),
                    old(self).mode(),
                    data@,
                    rsi_signals@,
                    bollinger_signals@,
                    data@.len() as int,
                );
                &&& final(self).trades_view() == end.trades
                &&& final(self).position() == end.pos
                &&& final(self).curve_view() == end.curve
            }),
            result_matches(
                old(self).cfg(),
                old(self).mode(),
                data@,
                rsi_signals@,
                bollinger_signals@,
                r,
            ),
            final(self).curve_view().len() == data@.len() + 1,
            r.total_trades == r.winning_trades + r.losing_trades,
            0 <= r.win_rate <= SCALE,
            r.total_trades == 0 ==> r.win_rate == 0,
            r.total_pnl == total_pnl_spec(r.trades@),
            r.max_drawdown >= 0,
    {
        self.trades.clear();
        self.current_position = None;
        self.equity_curve.clear();
        let seed_ts: i64 = if data.len() > 0 {
            data[0].raw_data.timestamp
        } else {
            0
        };
        self.equity_curve.push(
            EquityPoint { timestamp: seed_ts, equity: self.initial_capital as i128, drawdown: 0 },
        );
        let ghost c = self.cfg();
        let ghost dv = data@;
        let ghost av = rsi_signals@;
        let ghost bv = bollinger_signals@;
        let mode = self.strategy_mode;
        proof {
            assert(self.trades@ =~= sim(c, mode, dv, av, bv, 0).trades);
            assert(self.equity_curve@ =~= sim(c, mode, dv, av, bv, 0).curve);
        }
        let n = data.len();
        let mut i: usize = 0;
        while i < n
            invariant
                i <= n,
                self.wf(),
                self.cfg() == c,
                self.mode() == mode,
                self.trades_view() == sim(c, mode, dv, av, bv, i as int).trades,
                self.position() == sim(c, mode, dv, av, bv, i as int).pos,
                self.curve_view() == sim(c, mode, dv, av, bv, i as int).curve,
            decreases n - i,
        {
            let ghost s_pre = sim(c, mode, dv, av, bv, i as int);
            proof {
                lemma_sim_wf(c, mode, dv, av, bv, i as int);
                assert(dv[i as int].valid());
            }
            let sig_a = rsi_signals[i];
            let sig_b = bollinger_signals[i];
            let decision = Self::decide(mode, sig_a, sig_b);
            if let Some(signal) = decision {
                self.execute_trade(&data[i], signal);
            }
            proof {
                lemma_sim_wf(c, mode, dv, av, bv, i as int + 1);
                assert(sim(c, mode, dv, av, bv, i as int + 1) == sim_step(
                    c,
                    mode,
                    s_pre,
                    dv[i as int],
                    av[i as int],
                    bv[i as int],
                ));
                assert(self.position() == sim(c, mode, dv, av, bv, i as int + 1).pos);
                assert(self.trades_view() == sim(c, mode, dv, av, bv, i as int + 1).trades);
                assert(self.position() is Some ==> trade_wf(self.position().unwrap()));
            }
            let current_price = data[i].raw_data.price;
            let ts_i = data[i].raw_data.timestamp;
            let current_equity = self.calculate_current_equity(current_price);
            let num: i128 = self.initial_capital as i128 - current_equity;
            proof {
                assert(abs_i(num as int) <= MAX_AMOUNT + EQ_CAP);
                assert(-(40_000_000_000_000_000_000_000_000_000_000i128) <= (num as int) * (
                SCALE as int) <= 40_000_000_000_000_000_000_000_000_000_000i128)
                    by (nonlinear_arith)
                    requires
                        abs_i(num as int) <= MAX_AMOUNT + EQ_CAP,
                ;
            }
            let dd = div_i128(num * SCALE, self.initial_capital as i128);
            self.equity_curve.push(
                EquityPoint { timestamp: ts_i, equity: current_equity, drawdown: dd },
            );
            proof {
                let md_g = dv[i as int];
                let s_post = sim(c, mode, dv, av, bv, i as int + 1);
                assert(current_equity == equity_now(c, s_post.pos, md_g.raw_data.price as int));
                assert(dd == div_trunc(
                    (c.initial_capital - current_equity) * (SCALE as int),
                    c.initial_capital,
                ));
                assert(tick_point(c, s_post.pos, md_g) == EquityPoint {
                    timestamp: ts_i,
                    equity: current_equity,
                    drawdown: dd,
                });
                assert(self.curve_view() == s_post.curve);
            }
            i = i + 1;
        }
        proof {
            lemma_sim_wf(c, mode, dv, av, bv, n as int);
        }
        self.calculate_results()
    }
}

/// Number of closed trades counted as winning: realized profit strictly
/// positive. A trade with zero profit is not winning.
pub open spec fn count_winning(ts: Seq<Trade>) -> int
    decreases ts.len(),
{
    if ts.len() == 0 {
        0
    } else {
        count_winning(ts.drop_last()) + if ts.last().pnl is Some && ts.last().pnl.unwrap() > 0 {
            1int
        } else {
            0int
        }
    }
}

/// Number of closed trades counted as losing: realized result present and
/// not strictly positive (a result of exactly zero counts as losing).
pub open spec fn count_losing(ts: Seq<Trade>) -> int
    decreases ts.len(),
{
    if ts.len() == 0 {
        0
    } else {
        count_losing(ts.drop_last()) + if ts.last().pnl is Some && ts.last().pnl.unwrap() <= 0 {
            1int
        } else {
            0int
        }
    }
}

/// Sum of all realized results.
pub open spec fn total_pnl_spec(ts: Seq<Trade>) -> int
    decreases ts.len(),
{
    if ts.len() == 0 {
        0
    } else {
        total_pnl_spec(ts.drop_last()) + if ts.last().pnl is Some {
            ts.last().pnl.unwrap() as int
        } else {
            0int
        }
    }
}

/// Sum of the winning trades' realized results.
pub open spec fn win_amount_spec(ts: Seq<Trade>) -> int
    decreases ts.len(),
{
    if ts.len() == 0 {
        0
    } else {
        win_amount_spec(ts.drop_last()) + if ts.last().pnl is Some && ts.last().pnl.unwrap() > 0 {
            ts.last().pnl.unwrap() as int
        } else {
            0int
        }
    }
}

/// Sum of the losing trades' realized results (non-positive).
pub open spec fn loss_amount_spec(ts: Seq<Trade>) -> int
    decreases ts.len(),
{
    if ts.len() == 0 {
        0
    } else {
        loss_amount_spec(ts.drop_last()) + if ts.last().pnl is Some && ts.last().pnl.unwrap() <= 0 {
            ts.last().pnl.unwrap() as int
        } else {
            0int
        }
    }
}

/// Largest single winning result, or zero when there is none.
pub open spec fn largest_win_spec(ts: Seq<Trade>) -> int
    decreases ts.len(),
{
    if ts.len() == 0 {
        0
    } else {
        let p = largest_win_spec(ts.drop_last());
        let t = ts.last();
        if t.pnl is Some && t.pnl.unwrap() > 0 && t.pnl.unwrap() > p {
            t.pnl.unwrap() as int
        } else {
            p
        }
    }
}

/// Most negative single losing result, or zero when there is none.
pub open spec fn largest_loss_spec(ts: Seq<Trade>) -> int
    decreases ts.len(),
{
    if ts.len() == 0 {
        0
    } else {
        let p = largest_loss_spec(ts.drop_last());
        let t = ts.last();
        if t.pnl is Some && t.pnl.unwrap() <= 0 && t.pnl.unwrap() < p {
            t.pnl.unwrap() as int
        } else {
            p
        }
    }
}

/// Fraction of trades that won, as a fixed-point ratio in `[0, SCALE]`;
/// zero when there were no trades.
pub open spec fn win_rate_spec(ts: Seq<Trade>) -> int {
    if ts.len() > 0 {
        div_trunc(count_winning(ts) * (SCALE as int), ts.len() as int)
    } else {
        0
    }
}

/// Mean winning result, or zero when there is none.
pub open spec fn average_win_spec(ts: Seq<Trade>) -> int {
    if count_winning(ts) > 0 {
        div_trunc(win_amount_spec(ts), count_winning(ts))
    } else {
        0
    }
}

/// Mean losing result, or zero when there is none.
pub open spec fn average_loss_spec(ts: Seq<Trade>) -> int {
    if count_losing(ts) > 0 {
        div_trunc(loss_amount_spec(ts), count_losing(ts))
    } else {
        0
    }
}

/// Walks the curve from point `i` with running peak `peak` (at least the
/// initial capital) and best drawdown `best`; yields the final peak and the
/// maximum of `(peak - equity) / peak` seen.
pub open spec fn mdd_fold(curve: Seq<EquityPoint>, i: int, peak: int, best: int) -> (int, int)
    decreases curve.len() - i,
{
    if i < 0 || i >= curve.len() {
        (peak, best)
    } else {
        let e = curve[i].equity as int;
        let p2 = if e > peak {
            e
        } else {
            peak
        };
        let dd = div_trunc((p2 - e) * (SCALE as int), p2);
        let b2 = if dd > best {
            dd
        } else {
            best
        };
        mdd_fold(curve, i + 1, p2, b2)
    }
}

/// Maximum running-peak drawdown over the whole curve, as a fixed-point
/// ratio; the peak starts at the initial capital.
pub open spec fn max_drawdown_spec(initial_capital: int, curve: Seq<EquityPoint>) -> int {
    mdd_fold(curve, 0, initial_capital, 0).1
}

/// Period-over-period return from curve point `i` to `i + 1`, as a
/// fixed-point ratio, saturated at `RET_CAP`; zero when the earlier equity
/// is exactly zero.
pub open spec fn ret_at(curve: Seq<EquityPoint>, i: int) -> int {
    let prev = curve[i].equity as int;
    if prev == 0 {
        0
    } else {
        clamp_ret(div_trunc((curve[i + 1].equity - prev) * (SCALE as int), prev))
    }
}

/// Sum of the first `k` period returns.
pub open spec fn ret_sum(curve: Seq<EquityPoint>, k: int) -> int
    decreases k,
{
    if k <= 0 {
        0
    } else {
        ret_sum(curve, k - 1) + ret_at(curve, k - 1)
    }
}

/// Sum of squared deviations of the first `k` period returns from `mean`.
pub open spec fn ret_sqdev(curve: Seq<EquityPoint>, k: int, mean: int) -> int
    decreases k,
{
    if k <= 0 {
        0
    } else {
        ret_sqdev(curve, k - 1, mean) + (ret_at(curve, k - 1) - mean) * (ret_at(curve, k - 1)
            - mean)
    }
}

/// Annualized Sharpe ratio of the curve's period returns, as a fixed-point
/// ratio: mean and population standard deviation (dividing by n) of the
/// returns, annualized over 252 periods (the deviation via
/// `sqrt(252 * variance)`), less the risk-free rate, over the annualized
/// deviation. Zero when there are no returns or the deviation is zero.
pub open spec fn sharpe_spec(curve: Seq<EquityPoint>) -> int {
    let n = curve.len() - 1;
    if n <= 0 {
        0
    } else {
        let mean = div_trunc(ret_sum(curve, n), n);
        let var = div_trunc(ret_sqdev(curve, n, mean), n);
        let ann_std = sqrt_floor((PERIODS_PER_YEAR * var) as nat) as int;
        if ann_std > 0 {
            div_trunc((mean * PERIODS_PER_YEAR - RISK_FREE) * (SCALE as int), ann_std)
        } else {
            0
        }
    }
}

/// The reported result of a run over configuration `c`, mode `mode` and
/// inputs `data`, `a`, `b`: every field equals its specification over the
/// run's final state. The result is thereby a pure function of those
/// arguments.
pub open spec fn result_matches(
    c: Config,
    mode: StrategyMode,
    data: Seq<ProcessedMarketData>,
    a: Seq<Signal>,
    b: Seq<Signal>,
    r: BacktestResult,
) -> bool {
    let end = sim(c, mode, data, a, b, data.len() as int);
    &&& r.trades@ == end.trades
    &&& r.total_trades == end.trades.len()
    &&& r.winning_trades == count_winning(end.trades)
    &&& r.losing_trades == count_losing(end.trades)
    &&& r.total_pnl == total_pnl_spec(end.trades)
    &&& r.win_rate == win_rate_spec(end.trades)
    &&& r.average_win == average_win_spec(end.trades)
    &&& r.average_loss == average_loss_spec(end.trades)
    &&& r.largest_win == largest_win_spec(end.trades)
    &&& r.largest_loss == largest_loss_spec(end.trades)
    &&& r.max_drawdown == max_drawdown_spec(c.initial_capital, end.curve)
    &&& r.sharpe_ratio == sharpe_spec(end.curve)
}

/// Winning and losing counts partition the trade list whenever every trade
/// carries a realized result.
pub proof fn lemma_counts_partition(ts: Seq<Trade>)
    requires
        forall|i: int| 0 <= i < ts.len() ==> (#[trigger] ts[i]).pnl is Some,
    ensures
        count_winning(ts) + count_losing(ts) == ts.len(),
        0 <= count_winning(ts) <= ts.len(),
        0 <= count_losing(ts) <= ts.len(),
    decreases ts.len(),
{
    if ts.len() > 0 {
        assert(forall|i: int|
            0 <= i < ts.drop_last().len() ==> (#[trigger] ts.drop_last()[i]).pnl is Some);
        lemma_counts_partition(ts.drop_last());
    }
}

/// Running statistics of one pass over the closed trades.
struct TradeStats {
    winning: usize,
    losing: usize,
    total_pnl: i128,
    win_amount: i128,
    loss_amount: i128,
    largest_win: i128,
    largest_loss: i128,
}

/// One pass over the closed trades, as the aggregator makes it.
#[verifier::loop_isolation(false)]
fn compute_trade_stats(trades: &Vec<Trade>) -> (st: TradeStats)
    requires
        trades@.len() <= MAX_TICKS,
        forall|i: int|
            0 <= i < trades@.len() ==> trade_wf(#[trigger] trades@[i]) && trades@[i].pnl is Some,
    ensures
        st.winning == count_winning(trades@),
        st.losing == count_losing(trades@),
        st.total_pnl == total_pnl_spec(trades@),
        st.win_amount == win_amount_spec(trades@),
        st.loss_amount == loss_amount_spec(trades@),
        st.largest_win == largest_win_spec(trades@),
        st.largest_loss == largest_loss_spec(trades@),
        st.winning + st.losing == trades@.len(),
        0 <= st.win_amount <= trades@.len() * PNL_CAP,
        -(trades@.len() * PNL_CAP) <= st.loss_amount <= 0,
        abs_i(st.total_pnl as int) <= trades@.len() * PNL_CAP,
        0 <= st.largest_win <= PNL_CAP,
        -PNL_CAP <= st.largest_loss <= 0,
{
    let n = trades.len();
    let mut winning: usize = 0;
    let mut losing: usize = 0;
    let mut total_pnl: i128 = 0;
    let mut win_amount: i128 = 0;
    let mut loss_amount: i128 = 0;
    let mut largest_win: i128 = 0;
    let mut largest_loss: i128 = 0;
    let mut j: usize = 0;
    while j < n
        invariant
            j <= n,
            winning == count_winning(trades@.take(j as int)),
            losing == count_losing(trades@.take(j as int)),
            total_pnl == total_pnl_spec(trades@.take(j as int)),
            win_amount == win_amount_spec(trades@.take(j as int)),
            loss_amount == loss_amount_spec(trades@.take(j as int)),
            largest_win == largest_win_spec(trades@.take(j as int)),
            largest_loss == largest_loss_spec(trades@.take(j as int)),
            winning + losing == j,
            0 <= win_amount <= j * PNL_CAP,
            -(j * PNL_CAP) <= loss_amount <= 0,
            abs_i(total_pnl as int) <= j * PNL_CAP,
            0 <= largest_win <= PNL_CAP,
            -PNL_CAP <= largest_loss <= 0,
        decreases n - j,
    {
        let t = trades[j];
        proof {
            assert(trades@.take(j + 1).drop_last() =~= trades@.take(j as int));
            assert(trades@.take(j + 1).last() == trades@[j as int]);
            assert(trade_wf(trades@[j as int]));
            assert(j * PNL_CAP + PNL_CAP == (j + 1) * PNL_CAP) by (nonlinear_arith);
            assert((j + 1) * PNL_CAP <= (n as int) * PNL_CAP) by (nonlinear_arith)
                requires
                    j + 1 <= n as int,
            ;
            assert((n as int) * PNL_CAP <= 100_000_000 * PNL_CAP) by (nonlinear_arith)
                requires
                    n as int <= 100_000_000,
            ;
        }
        if let Some(pnl) = t.pnl {
            total_pnl = total_pnl + pnl;
            if pnl > 0 {
                winning = winning + 1;
                win_amount = win_amount + pnl;
                if pnl > largest_win {
                    largest_win = pnl;
                }
            } else {
                losing = losing + 1;
                loss_amount = loss_amount + pnl;
                if pnl < largest_loss {
                    largest_loss = pnl;
                }
            }
        }
        j = j + 1;
    }
    proof {
        assert(trades@.take(n as int) =~= trades@);
    }
    TradeStats { winning, losing, total_pnl, win_amount, loss_amount, largest_win, largest_loss }
}

/// Maximum running-peak drawdown of the curve, executable form.
#[verifier::loop_isolation(false)]
fn compute_max_drawdown(initial_capital: i64, curve: &Vec<EquityPoint>) -> (dd: i128)
    requires
        1 <= initial_capital <= MAX_AMOUNT,
        forall|i: int|
            0 <= i < curve@.len() ==> abs_i((#[trigger] curve@[i]).equity as int) <= EQ_CAP,
    ensures
        dd == max_drawdown_spec(initial_capital as int, curve@),
        dd >= 0,
{
    let n = curve.len();
    let mut peak: i128 = initial_capital as i128;
    let mut best: i128 = 0;
    let mut j: usize = 0;
    while j < n
        invariant
            j <= n,
            1 <= peak <= EQ_CAP,
            0 <= best,
            mdd_fold(curve@, j as int, peak as int, best as int) == mdd_fold(
                curve@,
                0,
                initial_capital as int,
                0,
            ),
        decreases n - j,
    {
        let e = curve[j].equity;
        if e > peak {
            peak = e;
        }
        let num: i128 = (peak - e) * SCALE;
        let dd_here = div_i128(num, peak);
        proof {
            assert(dd_here == div_trunc((peak - e) * (SCALE as int), peak as int));
            assert(div_trunc((peak - e) * (SCALE as int), peak as int) >= 0) by (nonlinear_arith)
                requires
                    peak - e >= 0,
                    peak >= 1,
            ;
        }
        if dd_here > best {
            best = dd_here;
        }
        j = j + 1;
    }
    best
}

/// Period return from curve point `i` to `i + 1`, executable form.
fn period_return(curve: &Vec<EquityPoint>, i: usize) -> (r: i128)
    requires
        i + 1 < curve@.len(),
        forall|k: int|
            0 <= k < curve@.len() ==> abs_i((#[trigger] curve@[k]).equity as int) <= EQ_CAP,
    ensures
        r == ret_at(curve@, i as int),
        -RET_CAP <= r <= RET_CAP,
{
    let len = curve.len();
    assert(i + 1 < len);
    let prev = curve[i].equity;
    if prev == 0 {
        return 0;
    }
    assert(abs_i(curve@[i as int].equity as int) <= EQ_CAP);
    assert(abs_i(curve@[i + 1].equity as int) <= EQ_CAP);
    let diff: i128 = curve[i + 1].equity - prev;
    let q = div_i128(diff * SCALE, prev);
    if q > RET_CAP {
        RET_CAP
    } else if q < -RET_CAP {
        -RET_CAP
    } else {
        q
    }
}

/// Annualized Sharpe ratio of the curve, executable form.
#[verifier::loop_isolation(false)]
fn compute_sharpe(curve: &Vec<EquityPoint>) -> (s: i128)
    requires
        1 <= curve@.len() <= MAX_TICKS + 1,
        forall|k: int|
            0 <= k < curve@.len() ==> abs_i((#[trigger] curve@[k]).equity as int) <= EQ_CAP,
    ensures
        s == sharpe_spec(curve@),
{
    let n = curve.len() - 1;
    if n == 0 {
        return 0;
    }
    let mut sum: i128 = 0;
    let mut j: usize = 0;
    while j < n
        invariant
            j <= n,
            sum == ret_sum(curve@, j as int),
            abs_i(sum as int) <= j * RET_CAP,
        decreases n - j,
    {
        let r = period_return(curve, j);
        proof {
            assert(j * RET_CAP + RET_CAP == (j + 1) * RET_CAP) by (nonlinear_arith);
            assert((j + 1) * RET_CAP <= (n as int) * RET_CAP) by (nonlinear_arith)
                requires
                    j + 1 <= n as int,
            ;
            assert((n as int) * RET_CAP <= 100_000_000 * RET_CAP) by (nonlinear_arith)
                requires
                    n as int <= 100_000_000,
            ;
        }
        sum = sum + r;
        j = j + 1;
    }
    let mean = div_i128(sum, n as i128);
    proof {
        lemma_div_trunc_bound(sum as int, n as int, RET_CAP as int);
        assert(abs_i(mean as int) <= RET_CAP);
    }
    let mut sq: i128 = 0;
    let mut j: usize = 0;
    while j < n
        invariant
            j <= n,
            sq == ret_sqdev(curve@, j as int, mean as int),
            0 <= sq <= j * (40_000_000_000_000_000_000_000_000_000i128),
        decreases n - j,
    {
        let r = period_return(curve, j);
        let d: i128 = r - mean;
        proof {
            assert(0 <= d * d <= 40_000_000_000_000_000_000_000_000_000) by (nonlinear_arith)
                requires
                    -(2 * RET_CAP) <= d <= 2 * RET_CAP,
            ;
            assert(j * (40_000_000_000_000_000_000_000_000_000i128)
                + 40_000_000_000_000_000_000_000_000_000 == (j + 1) * (
            40_000_000_000_000_000_000_000_000_000i128)) by (nonlinear_arith);
            assert((j + 1) * (40_000_000_000_000_000_000_000_000_000i128) <= (n as int) * (
            40_000_000_000_000_000_000_000_000_000i128)) by (nonlinear_arith)
                requires
                    j + 1 <= n as int,
            ;
            assert((n as int) * (40_000_000_000_000_000_000_000_000_000i128) <= 100_000_000 * (
            40_000_000_000_000_000_000_000_000_000i128)) by (nonlinear_arith)
                requires
                    n as int <= 100_000_000,
            ;
        }
        sq = sq + d * d;
        j = j + 1;
    }
    let var = div_i128(sq, n as i128);
    proof {
        lemma_div_trunc_nonneg(sq as int, n as int);
        lemma_div_trunc_bound(sq as int, n as int, 40_000_000_000_000_000_000_000_000_000);
        assert(0 <= var <= 40_000_000_000_000_000_000_000_000_000);
    }
    let ann_var: i128 = PERIODS_PER_YEAR * var;
    let ann_std_u = isqrt_u128(ann_var as u128);
    proof {
        assert(ann_std_u * ann_std_u <= ann_var);
        assert(ann_std_u <= 4_000_000_000_000_000) by (nonlinear_arith)
            requires
                ann_std_u * ann_std_u <= ann_var,
                ann_var <= 252 * 40_000_000_000_000_000_000_000_000_000i128,
                ann_std_u >= 0,
        ;
        assert((ann_var as u128) as nat == (PERIODS_PER_YEAR * var) as nat);
    }
    let ann_std: i128 = ann_std_u as i128;
    if ann_std > 0 {
        let num: i128 = (mean * PERIODS_PER_YEAR - RISK_FREE) * SCALE;
        div_i128(num, ann_std)
    } else {
        0
    }
}

} // verus!
