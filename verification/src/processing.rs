//! The rolling indicator processor: a capacity-bounded price history from
//! which each incoming tick gets its moving averages, smoothed relative
//! strength, volatility and outlier flag.

use vstd::prelude::*;
use std::collections::VecDeque;
use crate::fixed::{
    abs_i, div_i128, div_trunc, isqrt_u128, sqrt_floor, MAX_PRICE, SCALE,
};
use crate::market::{MarketData, ProcessedMarketData};

verus! {

/// Sum of a sequence of fixed-point prices.
pub open spec fn sum_seq(s: Seq<i64>) -> int
    decreases s.len(),
{
    if s.len() == 0 {
        0
    } else {
        sum_seq(s.drop_last()) + s.last()
    }
}

/// Every element is a price the engine accepts.
pub open spec fn in_price_range(s: Seq<i64>) -> bool {
    forall|i: int| 0 <= i < s.len() ==> 1 <= #[trigger] s[i] <= MAX_PRICE
}

/// The most recent `period` elements of `h`.
pub open spec fn window(h: Seq<i64>, period: nat) -> Seq<i64> {
    h.subrange(h.len() - period, h.len() as int)
}

/// Simple moving average over the most recent `period` prices, or `None`
/// when fewer than `period` prices are held.
pub open spec fn ma_spec(h: Seq<i64>, period: nat) -> Option<i64> {
    if period == 0 || h.len() < period {
        None
    } else {
        Some(div_trunc(sum_seq(window(h, period)), period as int) as i64)
    }
}

/// The `j`-th oldest of the most recent `period` price changes.
pub open spec fn change_at(h: Seq<i64>, period: nat, j: int) -> int {
    h[h.len() - period + j] - h[h.len() - period + j - 1]
}

/// Contribution of the `j`-th change to the gain series (its positive part).
pub open spec fn gain_at(h: Seq<i64>, period: nat, j: int) -> int {
    if change_at(h, period, j) > 0 {
        change_at(h, period, j)
    } else {
        0
    }
}

/// Contribution of the `j`-th change to the loss series (its negative
/// part's magnitude).
pub open spec fn loss_at(h: Seq<i64>, period: nat, j: int) -> int {
    if change_at(h, period, j) > 0 {
        0
    } else {
        -change_at(h, period, j)
    }
}

/// One exponential-smoothing update with weight `2 / (period + 1)`:
/// `(2 * sample + (period - 1) * avg) / (period + 1)`, rounded toward zero.
pub open spec fn ema_step_spec(sample: int, avg: int, period: nat) -> int {
    div_trunc(2 * sample + (period - 1) * avg, period as int + 1)
}

/// Smoothed average of the gain (or loss) series after consuming the
/// changes `0 ..= k`, seeded with the oldest value.
pub open spec fn ema_rec(h: Seq<i64>, period: nat, k: nat, gains: bool) -> int
    decreases k,
{
    let sample = if gains {
        gain_at(h, period, k as int)
    } else {
        loss_at(h, period, k as int)
    };
    if k == 0 {
        sample
    } else {
        ema_step_spec(sample, ema_rec(h, period, (k - 1) as nat, gains), period)
    }
}

/// Smoothed relative strength over the most recent `period` changes, on a
/// fixed-point scale of `0 ..= 100 * SCALE`, or `None` when fewer than
/// `period + 1` prices are held.
///
/// With `g` and `l` the smoothed average gain and loss, the classical
/// `100 - 100 / (1 + g / l)` is computed in the algebraically equal form
/// `100 * g / (g + l)`, which needs a single rounding; a zero average loss
/// yields exactly 100.
pub open spec fn rsi_spec(h: Seq<i64>, period: nat) -> Option<i64> {
    if period == 0 || h.len() < period + 1 {
        None
    } else {
        let g = ema_rec(h, period, (period - 1) as nat, true);
        let l = ema_rec(h, period, (period - 1) as nat, false);
        if l == 0 {
            Some((100 * SCALE) as i64)
        } else {
            Some(div_trunc(100 * SCALE * g, g + l) as i64)
        }
    }
}

/// Sum of squared deviations from `mean`.
pub open spec fn sq_dev_sum(s: Seq<i64>, mean: int) -> int
    decreases s.len(),
{
    if s.len() == 0 {
        0
    } else {
        sq_dev_sum(s.drop_last(), mean) + (s.last() - mean) * (s.last() - mean)
    }
}

/// Sample standard deviation (dividing by n - 1) of the most recent 20
/// prices, rounded down, or `None` when fewer than 20 prices are held.
pub open spec fn volatility_spec(h: Seq<i64>) -> Option<i64> {
    if h.len() < 20 {
        None
    } else {
        let w = window(h, 20);
        let mean = div_trunc(sum_seq(w), 20);
        let var = div_trunc(sq_dev_sum(w, mean), 19);
        Some(sqrt_floor(var as nat) as i64)
    }
}

/// Whether `price` (already the newest element of `h`) deviates from the
/// 20-price mean by more than four volatilities. False while fewer than 4
/// prices are held, and false whenever the volatility is still undefined.
///
/// The comparison `|price - mean| / vol > 4` is taken in the product form
/// `|price - mean| > 4 * vol`, which also settles the zero-volatility case:
/// any deviation from the mean of a flat window is flagged.
pub open spec fn outlier_spec(h: Seq<i64>, price: i64) -> bool {
    if h.len() < 4 || h.len() < 20 {
        false
    } else {
        let mean = div_trunc(sum_seq(window(h, 20)), 20);
        let vol = volatility_spec(h).unwrap();
        abs_i(price - mean) > 4 * vol
    }
}

/// `h` after appending `p` and evicting the oldest element if the capacity
/// `max` is now exceeded.
pub open spec fn push_evict(s: Seq<i64>, p: i64, max: int) -> Seq<i64> {
    let t = s.push(p);
    if t.len() > max {
        t.subrange(1, t.len() as int)
    } else {
        t
    }
}

/// Appending one element adds it to the sum.
proof fn lemma_sum_push(s: Seq<i64>, x: i64)
    ensures
        sum_seq(s.push(x)) == sum_seq(s) + x,
{
    assert(s.push(x).drop_last() =~= s);
    assert(s.push(x).last() == x);
}

/// A sequence of in-range prices has an in-range sum.
proof fn lemma_sum_bounds(s: Seq<i64>)
    requires
        in_price_range(s),
    ensures
        s.len() <= sum_seq(s) <= s.len() * MAX_PRICE,
    decreases s.len(),
{
    if s.len() > 0 {
        assert(in_price_range(s.drop_last()));
        lemma_sum_bounds(s.drop_last());
        assert((s.len() - 1) * MAX_PRICE + MAX_PRICE == s.len() * MAX_PRICE) by (nonlinear_arith);
    }
}

/// Maintains a rolling window of recent prices for one instrument and
/// derives the per-tick indicators from it.
///
/// The abstract state (`self@`) is the sequence of retained prices, oldest
/// first; `capacity()` is the configured bound on its length.
pub struct DataProcessor {
    price_history: VecDeque<i64>,
    max_history_size: usize,
}

impl View for DataProcessor {
    type V = Seq<i64>;

    closed spec fn view(&self) -> Seq<i64> {
        self.price_history@
    }
}

impl DataProcessor {
    /// Configured bound on the number of retained prices.
    pub closed spec fn capacity(&self) -> int {
        self.max_history_size as int
    }

    /// The history never exceeds its capacity and holds accepted prices only.
    pub open spec fn wf(&self) -> bool {
        self@.len() <= self.capacity() && in_price_range(self@)
    }

    /// A processor with an empty history.
    pub fn new(max_history_size: usize) -> (r: Self)
        ensures
            r@ == Seq::<i64>::empty(),
            r.capacity() == max_history_size,
            r.wf(),
    {
        Self { price_history: VecDeque::with_capacity(max_history_size), max_history_size }
    }

    /// Arithmetic mean of the most recent `period` prices, or `None` when
    /// fewer are held.
    #[verifier::loop_isolation(false)]
    fn calculate_moving_average(&self, period: usize) -> (r: Option<i64>)
        requires
            self.wf(),
            period >= 1,
        ensures
            r == ma_spec(self@, period as nat),
    {
        let n = self.price_history.len();
        if n < period {
            return None;
        }
        let w = Ghost(window(self@, period as nat));
        let mut sum: i128 = 0;
        let mut j: usize = 0;
        while j < period
            invariant
                j <= period,
                sum == sum_seq(self@.subrange(n - period, n - period + j)),
                j <= sum <= j * MAX_PRICE,
            decreases period - j,
        {
            let x = self.price_history[n - period + j];
            proof {
                let a = n - period;
                assert(self@.subrange(a, a + j + 1).drop_last() =~= self@.subrange(a, a + j));
                assert(self@.subrange(a, a + j + 1).last() == self@[a + j]);
                assert(1 <= self@[a + j] <= MAX_PRICE);
                assert(j * MAX_PRICE + MAX_PRICE == (j + 1) * MAX_PRICE) by (nonlinear_arith);
                assert((j + 1) * MAX_PRICE <= usize::MAX * MAX_PRICE) by (nonlinear_arith)
                    requires
                        j + 1 <= usize::MAX,
                ;
            }
            sum = sum + x as i128;
            j = j + 1;
        }
        assert(self@.subrange(n - period, n - period + period) =~= w@);
        assert(period <= sum <= period * MAX_PRICE);
        let q = div_i128(sum, period as i128);
        proof {
            assert(q == sum as int / period as int);
            assert(sum as int / period as int <= MAX_PRICE) by (nonlinear_arith)
                requires
                    period >= 1,
                    sum <= period * MAX_PRICE,
            ;
            assert(sum as int / period as int >= 1) by (nonlinear_arith)
                requires
                    period >= 1,
                    sum >= period,
            ;
        }
        Some(q as i64)
    }

    /// One exponential-smoothing update, executable form.
    fn ema_step(sample: i64, avg: i64, period: usize) -> (r: i64)
        requires
            period >= 1,
            0 <= sample <= MAX_PRICE,
            0 <= avg <= MAX_PRICE,
        ensures
            r == ema_step_spec(sample as int, avg as int, period as nat),
            0 <= r <= MAX_PRICE,
    {
        proof {
            assert(0 <= (period - 1) as int * (avg as int) && (period - 1) as int * (avg as int)
                <= 0xFFFF_FFFF_FFFF_FFFF * (MAX_PRICE as int)) by (nonlinear_arith)
                requires
                    0 <= avg as int <= MAX_PRICE as int,
                    0 <= (period - 1) as int <= 0xFFFF_FFFF_FFFF_FFFF,
            ;
        }
        let num: i128 = 2 * (sample as i128) + ((period - 1) as i128) * (avg as i128);
        let den: i128 = period as i128 + 1;
        let q = div_i128(num, den);
        proof {
            assert(q == num as int / den as int);
            assert(2 * sample + (period - 1) * avg <= (period + 1) * MAX_PRICE) by (nonlinear_arith)
                requires
                    0 <= sample <= MAX_PRICE,
                    0 <= avg <= MAX_PRICE,
                    period >= 1,
            ;
            assert(num as int / den as int <= MAX_PRICE) by (nonlinear_arith)
                requires
                    den == period as int + 1,
                    period >= 1,
                    num <= (period + 1) * MAX_PRICE,
            ;
            assert(num as int / den as int >= 0) by (nonlinear_arith)
                requires
                    num >= 0,
                    den >= 1,
            ;
        }
        q as i64
    }

    /// Smoothed relative strength over the most recent `period` changes,
    /// or `None` when fewer than `period + 1` prices are held.
    #[verifier::loop_isolation(false)]
    fn calculate_rsi(&self, period: usize) -> (r: Option<i64>)
        requires
            self.wf(),
            period >= 1,
        ensures
            r == rsi_spec(self@, period as nat),
    {
        let n = self.price_history.len();
        if n <= period {
            return None;
        }
        let mut avg_gain: i64 = 0;
        let mut avg_loss: i64 = 0;
        let mut j: usize = 0;
        while j < period
            invariant
                j <= period,
                j > 0 ==> avg_gain == ema_rec(self@, period as nat, (j - 1) as nat, true),
                j > 0 ==> avg_loss == ema_rec(self@, period as nat, (j - 1) as nat, false),
                0 <= avg_gain <= MAX_PRICE,
                0 <= avg_loss <= MAX_PRICE,
            decreases period - j,
        {
            let idx = n - period + j;
            let cur = self.price_history[idx];
            let prev = self.price_history[idx - 1];
            let change = cur - prev;
            let gain = if change > 0 {
                change
            } else {
                0
            };
            let loss = if change > 0 {
                0
            } else {
                -change
            };
            assert(gain == gain_at(self@, period as nat, j as int));
            assert(loss == loss_at(self@, period as nat, j as int));
            if j == 0 {
                avg_gain = gain;
                avg_loss = loss;
            } else {
                avg_gain = Self::ema_step(gain, avg_gain, period);
                avg_loss = Self::ema_step(loss, avg_loss, period);
            }
            j = j + 1;
        }
        if avg_loss == 0 {
            return Some(1_000_000);
        }
        let num: i128 = 100 * SCALE * (avg_gain as i128);
        let den: i128 = avg_gain as i128 + avg_loss as i128;
        let q = div_i128(num, den);
        proof {
            assert(q == num as int / den as int);
            assert(num as int / den as int <= 100 * SCALE) by (nonlinear_arith)
                requires
                    num == 100 * SCALE * (avg_gain as int),
                    den == avg_gain as int + avg_loss as int,
                    0 <= avg_gain,
                    1 <= avg_loss,
            ;
            assert(num as int / den as int >= 0) by (nonlinear_arith)
                requires
                    num >= 0,
                    den >= 1,
            ;
        }
        Some(q as i64)
    }

    /// Sum of the most recent 20 prices.
    #[verifier::loop_isolation(false)]
    fn sum_last_20(&self) -> (sum: i128)
        requires
            self.wf(),
            self@.len() >= 20,
        ensures
            sum == sum_seq(window(self@, 20)),
            20 <= sum <= 20 * MAX_PRICE,
    {
        let n = self.price_history.len();
        let mut sum: i128 = 0;
        let mut j: usize = 0;
        while j < 20
            invariant
                j <= 20,
                sum == sum_seq(self@.subrange(n - 20, n - 20 + j)),
                j <= sum <= j * (MAX_PRICE as i128),
            decreases 20 - j,
        {
            let x = self.price_history[n - 20 + j];
            proof {
                let a = n - 20;
                assert(self@.subrange(a, a + j + 1).drop_last() =~= self@.subrange(a, a + j));
                assert(self@.subrange(a, a + j + 1).last() == self@[a + j]);
                assert(1 <= self@[a + j] <= MAX_PRICE);
                assert(j * (MAX_PRICE as i128) + MAX_PRICE == (j + 1) * (MAX_PRICE as i128))
                    by (nonlinear_arith);
                assert((j + 1) * (MAX_PRICE as i128) <= 20 * (MAX_PRICE as i128))
                    by (nonlinear_arith)
                    requires
                        j + 1 <= 20,
                ;
            }
            sum = sum + x as i128;
            j = j + 1;
        }
        assert(self@.subrange(n - 20, n - 20 + 20) =~= window(self@, 20));
        sum
    }

    /// Sample standard deviation of the most recent 20 prices, or `None`
    /// when fewer are held.
    #[verifier::loop_isolation(false)]
    fn calculate_volatility(&self) -> (r: Option<i64>)
        requires
            self.wf(),
        ensures
            r == volatility_spec(self@),
            r.is_some() ==> 0 <= r.unwrap() <= 5 * MAX_PRICE,
    {
        let n = self.price_history.len();
        if n < 20 {
            return None;
        }
        let w = Ghost(window(self@, 20));
        let sum = self.sum_last_20();
        let mean = div_i128(sum, 20);
        proof {
            assert(mean == sum as int / 20);
            assert(1 <= sum as int / 20 <= MAX_PRICE) by (nonlinear_arith)
                requires
                    20 <= sum <= 20 * MAX_PRICE,
            ;
        }
        let mut ssum: i128 = 0;
        let mut j: usize = 0;
        while j < 20
            invariant
                j <= 20,
                ssum == sq_dev_sum(self@.subrange(n - 20, n - 20 + j), mean as int),
                0 <= ssum <= j * (MAX_PRICE as i128) * (MAX_PRICE as i128),
            decreases 20 - j,
        {
            let x = self.price_history[n - 20 + j];
            let d: i128 = x as i128 - mean;
            proof {
                let a = n - 20;
                assert(self@.subrange(a, a + j + 1).drop_last() =~= self@.subrange(a, a + j));
                assert(self@.subrange(a, a + j + 1).last() == self@[a + j]);
                assert(1 <= self@[a + j] <= MAX_PRICE);
                assert(abs_i(d as int) < MAX_PRICE);
                assert(d * d <= MAX_PRICE * MAX_PRICE && d * d >= 0) by (nonlinear_arith)
                    requires
                        -(MAX_PRICE as i128) <= d <= MAX_PRICE as i128,
                ;
                assert(j * (MAX_PRICE as i128) * (MAX_PRICE as i128) + MAX_PRICE * MAX_PRICE == (j
                    + 1) * (MAX_PRICE as i128) * (MAX_PRICE as i128)) by (nonlinear_arith);
                assert((j + 1) * (MAX_PRICE as i128) * (MAX_PRICE as i128) <= 20 * (
                MAX_PRICE as i128) * (MAX_PRICE as i128)) by (nonlinear_arith)
                    requires
                        j + 1 <= 20,
                ;
            }
            ssum = ssum + d * d;
            j = j + 1;
        }
        assert(self@.subrange(n - 20, n - 20 + 20) =~= w@);
        let var = div_i128(ssum, 19);
        proof {
            assert(var == ssum as int / 19);
            assert(0 <= ssum as int / 19 <= ssum) by (nonlinear_arith)
                requires
                    ssum >= 0,
            ;
        }
        let root = isqrt_u128(var as u128);
        proof {
            assert(root * root <= var);
            assert(root <= 5 * MAX_PRICE) by (nonlinear_arith)
                requires
                    root * root <= var,
                    var <= 20 * (MAX_PRICE as i128) * (MAX_PRICE as i128),
                    root >= 0,
            ;
        }
        Some(root as i64)
    }

    /// Whether `price` (the newest element of the history) deviates from
    /// the 20-price mean by more than four volatilities.
    fn detect_outlier(&self, price: i64) -> (r: bool)
        requires
            self.wf(),
            1 <= price <= MAX_PRICE,
        ensures
            r == outlier_spec(self@, price),
    {
        let n = self.price_history.len();
        if n < 4 {
            return false;
        }
        match self.calculate_volatility() {
            None => false,
            Some(vol) => {
                assert(n >= 20);
                let sum = self.sum_last_20();
                let mean = div_i128(sum, 20);
                proof {
                    assert(mean == sum as int / 20);
                    assert(1 <= sum as int / 20 <= MAX_PRICE) by (nonlinear_arith)
                        requires
                            20 <= sum <= 20 * MAX_PRICE,
                    ;
                }
                let diff: i128 = price as i128 - mean;
                let mag: i128 = if diff < 0 {
                    -diff
                } else {
                    diff
                };
                mag > 4 * (vol as i128)
            },
        }
    }

    /// Appends the tick's price to the rolling history (evicting the oldest
    /// price when the capacity is exceeded) and derives all indicators from
    /// the updated history.
    pub fn process_data(&mut self, market_data: MarketData) -> (r: ProcessedMarketData)
        requires
            old(self).wf(),
            market_data.valid(),
        ensures
            final(self).wf(),
            final(self).capacity() == old(self).capacity(),
            final(self)@ == push_evict(old(self)@, market_data.price, old(self).capacity()),
            r == processed_of(final(self)@, market_data),
            r.valid(),
    {
        self.price_history.push_back(market_data.price);
        if self.price_history.len() > self.max_history_size {
            let _ = self.price_history.pop_front();
        }
        proof {
            assert(self@ =~= push_evict(old(self)@, market_data.price, old(self).capacity()));
            assert(in_price_range(self@));
        }
        let price = market_data.price;
        ProcessedMarketData {
            moving_average_5: self.calculate_moving_average(5),
            moving_average_20: self.calculate_moving_average(20),
            rsi_14: self.calculate_rsi(14),
            volatility: self.calculate_volatility(),
            is_outlier: self.detect_outlier(price),
            raw_data: market_data,
        }
    }

    /// Applies [`Self::process_data`] to each observation in order.
    #[verifier::loop_isolation(false)]
    pub fn process_batch(&mut self, market_data: Vec<MarketData>) -> (r: Vec<ProcessedMarketData>)
        requires
            old(self).wf(),
            forall|i: int| 0 <= i < market_data@.len() ==> #[trigger] market_data@[i].valid(),
        ensures
            final(self).wf(),
            final(self).capacity() == old(self).capacity(),
            final(self)@ == history_after(old(self)@, old(self).capacity(), market_data@),
            r@ == outputs_after(old(self)@, old(self).capacity(), market_data@),
    {
        let ghost all = market_data@;
        let ghost h0 = old(self)@;
        let ghost cap = old(self).capacity();
        let mut rest = market_data;
        let mut out: Vec<ProcessedMarketData> = Vec::new();
        while rest.len() > 0
            invariant
                self.wf(),
                self.capacity() == cap,
                forall|i: int| 0 <= i < rest@.len() ==> #[trigger] rest@[i].valid(),
                history_after(self@, cap, rest@) == history_after(h0, cap, all),
                out@ + outputs_after(self@, cap, rest@) == outputs_after(h0, cap, all),
            decreases rest.len(),
        {
            let ghost before = self@;
            let ghost rest_before = rest@;
            let md = rest.remove(0);
            let p = self.process_data(md);
            out.push(p);
            proof {
                assert(rest@ =~= rest_before.drop_first());
                assert(out@ + outputs_after(self@, cap, rest@) == outputs_after(h0, cap, all));
            }
        }
        proof {
            assert(rest@.len() == 0);
            assert(history_after(self@, cap, rest@) == self@);
            assert(outputs_after(self@, cap, rest@) =~= Seq::<ProcessedMarketData>::empty());
            assert(out@ + Seq::<ProcessedMarketData>::empty() =~= out@);
        }
        out
    }
}

/// The processed observation derived from history `h` (which already ends
/// with the observation's own price).
pub open spec fn processed_of(h: Seq<i64>, md: MarketData) -> ProcessedMarketData {
    ProcessedMarketData {
        raw_data: md,
        moving_average_5: ma_spec(h, 5),
        moving_average_20: ma_spec(h, 20),
        rsi_14: rsi_spec(h, 14),
        volatility: volatility_spec(h),
        is_outlier: outlier_spec(h, md.price),
    }
}

/// The price history left after processing `inputs` in order.
pub open spec fn history_after(h: Seq<i64>, cap: int, inputs: Seq<MarketData>) -> Seq<i64>
    decreases inputs.len(),
{
    if inputs.len() == 0 {
        h
    } else {
        history_after(push_evict(h, inputs[0].price, cap), cap, inputs.drop_first())
    }
}

/// The processed observations produced for `inputs` in order.
pub open spec fn outputs_after(h: Seq<i64>, cap: int, inputs: Seq<MarketData>) -> Seq<
    ProcessedMarketData,
>
    decreases inputs.len(),
{
    if inputs.len() == 0 {
        Seq::empty()
    } else {
        let h1 = push_evict(h, inputs[0].price, cap);
        seq![processed_of(h1, inputs[0])] + outputs_after(h1, cap, inputs.drop_first())
    }
}

} // verus!
