//! Every strategy of the catalogue is run, one bar at a time, into a paper
//! wallet over a synthetic price path that both trends (up then down) and
//! oscillates. The indicator sources and the wallet are written here over
//! floats; the strategies and the signal combinators are the library's.

use arcana::signal::{Signal, SignalExt};
use arcana::strategies::composite::{AdxTrendFilter, KeltnerBreakout, RsiPullback};
use arcana::strategies::mean_reversion::{
    BollingerReversion, MfiReversal, RsiReversal, StochRsiReversal, StochasticReversal, ZScore,
    ZScoreReversion,
};
use arcana::strategies::momentum::{MomentumRoc, Reading, RsiMidline};
use arcana::strategies::trend::{
    BollingerBreakout, DonchianBreakout, MaCrossover, MacdCrossover, MacdZeroCross, TripleMa,
};
use arcana::strategies::volume::{ChaikinAdTrend, ObvTrend, VwapReversion};
use arcana::strategies::{Exposure, Order, Side};

type Real = f64;

const FUNDS: Real = 10_000.0;
const SYMBOL: &str = "X";
const EPSILON: Real = 1e-8;

#[derive(Debug, Clone, Copy)]
struct Candle {
    open: Real,
    high: Real,
    low: Real,
    close: Real,
    volume: Real,
}

impl Candle {
    fn new(open: Real, high: Real, low: Real, close: Real, volume: Real) -> Self {
        Candle { open, high, low, close, volume }
    }
    fn typical(&self) -> Real {
        (self.high + self.low + self.close) / 3.0
    }
}

// ----------------------------------------------------------------------------
// Float sources
// ----------------------------------------------------------------------------

trait Source {
    fn push(&mut self, c: &Candle);
    fn current(&self) -> Option<Real>;
    fn boxed(&self) -> Box<dyn Source>;
}

type Src = Box<dyn Source>;

/// A field of the latest candle.
#[derive(Clone)]
struct Field(fn(&Candle) -> Real, Option<Real>);

impl Source for Field {
    fn push(&mut self, c: &Candle) {
        self.1 = Some((self.0)(c));
    }
    fn current(&self) -> Option<Real> {
        self.1
    }
    fn boxed(&self) -> Src {
        Box::new(self.clone())
    }
}

fn close() -> Src {
    Box::new(Field(|c| c.close, None))
}
fn high() -> Src {
    Box::new(Field(|c| c.high, None))
}
fn low() -> Src {
    Box::new(Field(|c| c.low, None))
}

struct Level(Real);

impl Source for Level {
    fn push(&mut self, _: &Candle) {}
    fn current(&self) -> Option<Real> {
        Some(self.0)
    }
    fn boxed(&self) -> Src {
        Box::new(Level(self.0))
    }
}

/// A function of the last `period` values of an inner source.
struct Window {
    inner: Src,
    period: usize,
    values: Vec<Real>,
    f: fn(&[Real]) -> Real,
}

impl Source for Window {
    fn push(&mut self, c: &Candle) {
        self.inner.push(c);
        if let Some(x) = self.inner.current() {
            self.values.push(x);
            if self.values.len() > self.period {
                self.values.remove(0);
            }
        }
    }
    fn current(&self) -> Option<Real> {
        (self.values.len() == self.period).then(|| (self.f)(&self.values))
    }
    fn boxed(&self) -> Src {
        Box::new(Window { inner: self.inner.boxed(), period: self.period, values: self.values.clone(), f: self.f })
    }
}

fn mean(v: &[Real]) -> Real {
    v.iter().sum::<Real>() / v.len() as Real
}
fn std_dev(v: &[Real]) -> Real {
    let m = mean(v);
    (v.iter().map(|x| (x - m) * (x - m)).sum::<Real>() / v.len() as Real).sqrt()
}
fn max_of(v: &[Real]) -> Real {
    v.iter().cloned().fold(Real::MIN, Real::max)
}
fn min_of(v: &[Real]) -> Real {
    v.iter().cloned().fold(Real::MAX, Real::min)
}
fn stoch_of(v: &[Real]) -> Real {
    let (lo, hi) = (min_of(v), max_of(v));
    if hi - lo == 0.0 { 0.5 } else { (v[v.len() - 1] - lo) / (hi - lo) }
}
fn roc_of(v: &[Real]) -> Real {
    (v[v.len() - 1] - v[0]) / v[0] * 100.0
}

fn window(inner: Src, period: usize, f: fn(&[Real]) -> Real) -> Src {
    Box::new(Window { inner, period, values: Vec::new(), f })
}
fn sma(inner: Src, period: usize) -> Src {
    window(inner, period, mean)
}
fn sd(inner: Src, period: usize) -> Src {
    window(inner, period, std_dev)
}

/// Two sources combined pointwise.
struct Combine {
    a: Src,
    b: Src,
    f: fn(Real, Real) -> Real,
}

impl Source for Combine {
    fn push(&mut self, c: &Candle) {
        self.a.push(c);
        self.b.push(c);
    }
    fn current(&self) -> Option<Real> {
        Some((self.f)(self.a.current()?, self.b.current()?))
    }
    fn boxed(&self) -> Src {
        Box::new(Combine { a: self.a.boxed(), b: self.b.boxed(), f: self.f })
    }
}

fn combine(a: Src, b: Src, f: fn(Real, Real) -> Real) -> Src {
    Box::new(Combine { a, b, f })
}

/// An inner source delayed by one sample.
struct Lag {
    inner: Src,
    prev: Option<Real>,
    value: Option<Real>,
}

impl Source for Lag {
    fn push(&mut self, c: &Candle) {
        self.value = self.prev;
        self.inner.push(c);
        self.prev = self.inner.current();
    }
    fn current(&self) -> Option<Real> {
        self.value
    }
    fn boxed(&self) -> Src {
        Box::new(Lag { inner: self.inner.boxed(), prev: self.prev, value: self.value })
    }
}

fn lag(inner: Src) -> Src {
    Box::new(Lag { inner, prev: None, value: None })
}

/// A recurrence over the bars: state, step, read-out.
struct Recur {
    state: Vec<Real>,
    step: fn(&mut Vec<Real>, &Candle) -> Option<Real>,
    value: Option<Real>,
}

impl Source for Recur {
    fn push(&mut self, c: &Candle) {
        self.value = (self.step)(&mut self.state, c);
    }
    fn current(&self) -> Option<Real> {
        self.value
    }
    fn boxed(&self) -> Src {
        Box::new(Recur { state: self.state.clone(), step: self.step, value: self.value })
    }
}

fn recur(init: Vec<Real>, step: fn(&mut Vec<Real>, &Candle) -> Option<Real>) -> Src {
    Box::new(Recur { state: init, step, value: None })
}

/// EMA of an inner source, seeded on its first value.
struct Ema {
    inner: Src,
    alpha: Real,
    value: Option<Real>,
}

impl Source for Ema {
    fn push(&mut self, c: &Candle) {
        self.inner.push(c);
        if let Some(x) = self.inner.current() {
            self.value = Some(match self.value {
                Some(prev) => self.alpha * x + (1.0 - self.alpha) * prev,
                None => x,
            });
        }
    }
    fn current(&self) -> Option<Real> {
        self.value
    }
    fn boxed(&self) -> Src {
        Box::new(Ema { inner: self.inner.boxed(), alpha: self.alpha, value: self.value })
    }
}

fn ema(inner: Src, period: usize) -> Src {
    Box::new(Ema { inner, alpha: 2.0 / (period as Real + 1.0), value: None })
}

/// Wilder-smoothed RSI of an inner source.
struct Rsi {
    inner: Src,
    period: usize,
    prev: Option<Real>,
    seen: usize,
    gain: Real,
    loss: Real,
    value: Option<Real>,
}

impl Source for Rsi {
    fn push(&mut self, c: &Candle) {
        self.inner.push(c);
        let Some(x) = self.inner.current() else { return };
        if let Some(prev) = self.prev {
            let (g, l) = ((x - prev).max(0.0), (prev - x).max(0.0));
            let p = self.period as Real;
            if self.seen < self.period {
                self.seen += 1;
                self.gain += g / p;
                self.loss += l / p;
            } else {
                self.gain = (self.gain * (p - 1.0) + g) / p;
                self.loss = (self.loss * (p - 1.0) + l) / p;
            }
            if self.seen == self.period {
                self.value = Some(if self.loss == 0.0 { 100.0 } else { 100.0 - 100.0 / (1.0 + self.gain / self.loss) });
            }
        }
        self.prev = Some(x);
    }
    fn current(&self) -> Option<Real> {
        self.value
    }
    fn boxed(&self) -> Src {
        Box::new(Rsi {
            inner: self.inner.boxed(),
            period: self.period,
            prev: self.prev,
            seen: self.seen,
            gain: self.gain,
            loss: self.loss,
            value: self.value,
        })
    }
}

fn rsi(inner: Src, period: usize) -> Src {
    Box::new(Rsi { inner, period, prev: None, seen: 0, gain: 0.0, loss: 0.0, value: None })
}

fn true_range(state: &mut Vec<Real>, c: &Candle) -> Real {
    // state[0] = has previous close, state[1] = previous close
    let tr = if state[0] == 0.0 {
        c.high - c.low
    } else {
        (c.high - c.low).max((c.high - state[1]).abs()).max((c.low - state[1]).abs())
    };
    state[0] = 1.0;
    state[1] = c.close;
    tr
}

fn atr(period: usize) -> Src {
    window(recur(vec![0.0, 0.0], |s, c| Some(true_range(s, c))), period, mean)
}

fn obv() -> Src {
    // state: [has prev, prev close, obv]
    recur(vec![0.0, 0.0, 0.0], |s, c| {
        if s[0] != 0.0 {
            if c.close > s[1] {
                s[2] += c.volume;
            } else if c.close < s[1] {
                s[2] -= c.volume;
            }
        }
        s[0] = 1.0;
        s[1] = c.close;
        Some(s[2])
    })
}

fn ad() -> Src {
    recur(vec![0.0], |s, c| {
        let range = c.high - c.low;
        if range != 0.0 {
            s[0] += ((c.close - c.low) - (c.high - c.close)) / range * c.volume;
        }
        Some(s[0])
    })
}

fn vwap() -> Src {
    recur(vec![0.0, 0.0], |s, c| {
        s[0] += c.typical() * c.volume;
        s[1] += c.volume;
        (s[1] != 0.0).then(|| s[0] / s[1])
    })
}

fn mfi(period: usize) -> Src {
    // state: [has prev, prev typical, flows...] with signed flows kept last `period`
    fn step(s: &mut Vec<Real>, c: &Candle) -> Option<Real> {
        let tp = c.typical();
        let had = s[0] != 0.0;
        let prev = s[1];
        s[0] = 1.0;
        s[1] = tp;
        if !had {
            return None;
        }
        let period = s[2] as usize;
        let flow = tp * c.volume;
        s.push(if tp > prev { flow } else if tp < prev { -flow } else { 0.0 });
        if s.len() - 3 > period {
            s.remove(3);
        }
        if s.len() - 3 < period {
            return None;
        }
        let pos: Real = s[3..].iter().filter(|f| **f > 0.0).sum();
        let neg: Real = -s[3..].iter().filter(|f| **f < 0.0).sum::<Real>();
        Some(if neg == 0.0 { 100.0 } else { 100.0 - 100.0 / (1.0 + pos / neg) })
    }
    recur(vec![0.0, 0.0, period as Real], step)
}

fn adx(period: usize) -> Src {
    // state: [has prev, prev high, prev low, prev close, seen, +dm, -dm, tr, dx seen, dx avg, p]
    fn step(s: &mut Vec<Real>, c: &Candle) -> Option<Real> {
        let p = s[10];
        if s[0] == 0.0 {
            s[0] = 1.0;
            s[1] = c.high;
            s[2] = c.low;
            s[3] = c.close;
            return None;
        }
        let up = c.high - s[1];
        let down = s[2] - c.low;
        let pdm = if up > down && up > 0.0 { up } else { 0.0 };
        let mdm = if down > up && down > 0.0 { down } else { 0.0 };
        let tr = (c.high - c.low).max((c.high - s[3]).abs()).max((c.low - s[3]).abs());
        s[1] = c.high;
        s[2] = c.low;
        s[3] = c.close;
        if s[4] < p {
            s[4] += 1.0;
            s[5] += pdm / p;
            s[6] += mdm / p;
            s[7] += tr / p;
        } else {
            s[5] = (s[5] * (p - 1.0) + pdm) / p;
            s[6] = (s[6] * (p - 1.0) + mdm) / p;
            s[7] = (s[7] * (p - 1.0) + tr) / p;
        }
        if s[4] < p {
            return None;
        }
        let (pdi, mdi) = if s[7] == 0.0 { (0.0, 0.0) } else { (100.0 * s[5] / s[7], 100.0 * s[6] / s[7]) };
        let dx = if pdi + mdi == 0.0 { 0.0 } else { 100.0 * (pdi - mdi).abs() / (pdi + mdi) };
        if s[8] < p {
            s[8] += 1.0;
            s[9] += dx / p;
        } else {
            s[9] = (s[9] * (p - 1.0) + dx) / p;
        }
        (s[8] >= p).then(|| s[9])
    }
    recur(vec![0.0, 0.0, 0.0, 0.0, 0.0, 0.0, 0.0, 0.0, 0.0, 0.0, period as Real], step)
}

fn macd_line(fast: usize, slow: usize) -> Src {
    combine(ema(close(), fast), ema(close(), slow), |a, b| a - b)
}

fn macd_signal(fast: usize, slow: usize, signal: usize) -> Src {
    ema(macd_line(fast, slow), signal)
}

fn plus_two(m: Real, s: Real) -> Real {
    m + 2.0 * s
}
fn minus_two(m: Real, s: Real) -> Real {
    m - 2.0 * s
}

/// The Bollinger band two standard deviations above (or below) the SMA.
fn band(period: usize, upper: bool) -> Src {
    combine(sma(close(), period), sd(close(), period), if upper { plus_two } else { minus_two })
}

// ----------------------------------------------------------------------------
// Comparison signals over the sources
// ----------------------------------------------------------------------------

/// Tolerance-aware `lhs > rhs` (or `lhs < rhs`), false until both are ready.
struct Compare {
    lhs: Src,
    rhs: Src,
    greater: bool,
    value: bool,
    start: (Src, Src),
}

impl Compare {
    fn new(lhs: Src, rhs: Src, greater: bool) -> Self {
        let start = (lhs.boxed(), rhs.boxed());
        Compare { lhs, rhs, greater, value: false, start }
    }
}

impl Signal for Compare {
    type Input = Candle;
    fn holds(&self) -> bool {
        self.value
    }
    fn step(&self, input: Candle) -> Self {
        let mut next = Compare { lhs: self.lhs.boxed(), rhs: self.rhs.boxed(), greater: self.greater, value: self.value, start: (self.start.0.boxed(), self.start.1.boxed()) };
        next.update(input);
        next
    }
    fn cleared(&self) -> Self {
        Compare::new(self.start.0.boxed(), self.start.1.boxed(), self.greater)
    }
    fn lemma_cleared_forgets_history(&self, _: Candle) {}
    fn update(&mut self, input: Candle) -> bool {
        self.lhs.push(&input);
        self.rhs.push(&input);
        self.value = match (self.lhs.current(), self.rhs.current()) {
            (Some(a), Some(b)) if self.greater => a > b + EPSILON,
            (Some(a), Some(b)) => a < b - EPSILON,
            _ => false,
        };
        self.value
    }
    fn value(&self) -> bool {
        self.value
    }
    fn reset(&mut self) {
        *self = self.cleared();
    }
}

fn gt(a: Src, b: Src) -> Compare {
    Compare::new(a, b, true)
}
fn lt(a: Src, b: Src) -> Compare {
    Compare::new(a, b, false)
}

fn crosses_above(a: Src, b: Src) -> impl Signal<Input = Candle> {
    gt(a.boxed(), b.boxed()).and(gt(a, b).changed())
}
fn crosses_below(a: Src, b: Src) -> impl Signal<Input = Candle> {
    lt(a.boxed(), b.boxed()).and(lt(a, b).changed())
}

// ----------------------------------------------------------------------------
// Driving strategies into a wallet
// ----------------------------------------------------------------------------

struct PaperWallet {
    cash: Real,
    position: Real,
    price: Real,
    orders: Vec<(Side, Real)>,
}

impl PaperWallet {
    fn new(funds: Real) -> Self {
        PaperWallet { cash: funds, position: 0.0, price: 0.0, orders: Vec::new() }
    }
    fn exposure(&self) -> Exposure {
        if self.position.abs() <= EPSILON {
            Exposure::Flat
        } else if self.position > EPSILON {
            Exposure::Long
        } else if self.position < -EPSILON {
            Exposure::Short
        } else {
            Exposure::Undetermined
        }
    }
    fn move_to(&mut self, target: Real) {
        let delta = target - self.position;
        if delta.abs() > EPSILON {
            self.orders.push((if delta > 0.0 { Side::Buy } else { Side::Sell }, delta.abs()));
            self.cash -= delta * self.price;
            self.position = target;
        }
    }
    fn apply(&mut self, order: Option<Order>) {
        let equity = self.cash + self.position * self.price;
        match order {
            Some(Order::AllIn(Side::Buy)) => self.move_to(equity / self.price),
            Some(Order::AllIn(Side::Sell)) => self.move_to(-equity / self.price),
            Some(Order::Close) => self.move_to(0.0),
            None => {}
        }
    }
    fn funds(&self) -> Real {
        self.cash + self.position * self.price
    }
}

fn reading_of(source: &Src, level: Real) -> Option<Reading> {
    source.current().map(|v| {
        if v > level {
            Reading::Above
        } else if v < level {
            Reading::Below
        } else {
            Reading::Neither
        }
    })
}

/// A price path that rises for the first half and falls for the second, with a
/// steady oscillation on top — rich enough to exercise every strategy family.
fn series() -> Vec<Candle> {
    let mut candles = Vec::new();
    let mut prev_close: Real = 100.0;
    for i in 0..200i32 {
        let trend = if i < 100 {
            100.0 + f64::from(i) * 0.8
        } else {
            180.0 - f64::from(i - 100) * 0.8
        };
        let close = trend + 10.0 * (f64::from(i) * 0.25).sin();
        let open = prev_close;
        let high = open.max(close) + 0.75;
        let low = open.min(close) - 0.75;
        // Volume scales with the size of the move (regardless of direction), so
        // money-flow indicators reach their extremes on the steep swings while
        // OBV/AD still read trend from the sign of each bar.
        let volume = 1_000.0 + 200.0 * (close - open).abs();
        candles.push(Candle::new(open, high, low, close, volume));
        prev_close = close;
    }
    candles
}

/// Runs one bar at a time: `bar` advances the strategy on the candle and
/// decides the order for the wallet's current exposure.
fn assert_trades(name: &str, mut bar: impl FnMut(Candle, Exposure) -> Option<Order>, candles: &[Candle]) {
    let mut wallet = PaperWallet::new(FUNDS);
    for &candle in candles {
        wallet.price = candle.close;
        let order = bar(candle, wallet.exposure());
        wallet.apply(order);
    }
    assert!(!wallet.orders.is_empty(), "{name} never traded");
    assert!(wallet.funds().is_finite(), "{name} produced non-finite funds");
}

fn stochastic(inner: Src, period: usize) -> Src {
    window(inner, period, stoch_of)
}

fn zscore(z: Real, entry: Real) -> ZScore {
    ZScore { cheap: z <= -entry, rich: z >= entry, at_or_above_mean: z >= 0.0, at_or_below_mean: z <= 0.0 }
}

fn level(x: Real) -> Src {
    Box::new(Level(x))
}

#[test]
fn every_strategy_trades_over_the_path() {
    let c = series();

    // Trend-following.
    let mut s = MaCrossover::new(SYMBOL, crosses_above(sma(close(), 5), sma(close(), 20)), crosses_below(sma(close(), 5), sma(close(), 20)));
    assert_trades("MaCrossover", |b, e| s.evaluate(b, e), &c);
    let mut s = MacdCrossover::new(SYMBOL, crosses_above(macd_line(12, 26), macd_signal(12, 26, 9)), crosses_below(macd_line(12, 26), macd_signal(12, 26, 9)));
    assert_trades("MacdCrossover", |b, e| s.evaluate(b, e), &c);
    let mut s = MacdZeroCross::new(SYMBOL, crosses_above(macd_line(12, 26), level(0.0)), crosses_below(macd_line(12, 26), level(0.0)));
    assert_trades("MacdZeroCross", |b, e| s.evaluate(b, e), &c);
    let mut s = DonchianBreakout::new(SYMBOL, gt(close(), lag(window(high(), 20, max_of))), lt(close(), lag(window(low(), 20, min_of))));
    assert_trades("DonchianBreakout", |b, e| s.evaluate(b, e), &c);
    let mut s = TripleMa::new(SYMBOL, gt(sma(close(), 5), sma(close(), 10)), gt(sma(close(), 10), sma(close(), 20)));
    assert_trades("TripleMa", |b, e| s.evaluate(b, e), &c);
    let mut s = BollingerBreakout::new(SYMBOL, gt(close(), band(20, true)), lt(close(), band(20, false)));
    assert_trades("BollingerBreakout", |b, e| s.evaluate(b, e), &c);

    // Mean-reversion.
    let mut s = RsiReversal::new(SYMBOL, crosses_below(rsi(close(), 14), level(30.0)), crosses_above(rsi(close(), 14), level(50.0)));
    assert_trades("RsiReversal", |b, e| { s.update(b); s.trade(e) }, &c);
    let mut s = BollingerReversion::new(SYMBOL, crosses_below(close(), band(20, false)), crosses_above(close(), sma(close(), 20)));
    assert_trades("BollingerReversion", |b, e| { s.update(b); s.trade(e) }, &c);
    let mut s = StochasticReversal::new(SYMBOL, crosses_below(stochastic(close(), 14), level(0.2)), crosses_above(stochastic(close(), 14), level(0.8)));
    assert_trades("StochasticReversal", |b, e| { s.update(b); s.trade(e) }, &c);
    let mut s = StochRsiReversal::new(
        SYMBOL,
        crosses_below(stochastic(rsi(close(), 14), 14), level(0.2)),
        crosses_above(stochastic(rsi(close(), 14), 14), level(0.8)),
    );
    assert_trades("StochRsiReversal", |b, e| { s.update(b); s.trade(e) }, &c);
    let mut s = MfiReversal::new(SYMBOL, crosses_below(mfi(14), level(20.0)), crosses_above(mfi(14), level(80.0)));
    assert_trades("MfiReversal", |b, e| { s.update(b); s.trade(e) }, &c);
    let s = ZScoreReversion::new(SYMBOL, 20);
    let mut z = combine(combine(close(), sma(close(), 20), |a, b| a - b), sd(close(), 20), |a, b| a / b);
    assert_trades("ZScoreReversion", |b, e| { z.push(&b); s.trade(z.current().map(|v| zscore(v, 1.0)), e) }, &c);

    // Momentum.
    let s = MomentumRoc::new(SYMBOL, 10);
    let mut roc = window(close(), s.period() + 1, roc_of);
    assert_trades("MomentumRoc", |b, e| { roc.push(&b); s.evaluate(reading_of(&roc, 0.0), e) }, &c);
    let s = RsiMidline::new(SYMBOL, 14);
    let mut r = rsi(close(), s.period());
    assert_trades("RsiMidline", |b, e| { r.push(&b); s.evaluate(reading_of(&r, 50.0), e) }, &c);

    // Volume / flow.
    let mut s = ObvTrend::new(SYMBOL, gt(obv(), sma(obv(), 20)));
    assert_trades("ObvTrend", |b, e| { s.update(b); s.trade(e) }, &c);
    let mut s = VwapReversion::new(SYMBOL, crosses_below(close(), vwap()), crosses_above(close(), vwap()));
    assert_trades("VwapReversion", |b, e| { s.update(b); s.trade(e) }, &c);
    let mut s = ChaikinAdTrend::new(SYMBOL, gt(ad(), sma(ad(), 20)));
    assert_trades("ChaikinAdTrend", |b, e| { s.update(b); s.trade(e) }, &c);

    // Composite.
    let mut s = AdxTrendFilter::new(
        SYMBOL,
        crosses_above(sma(close(), 5), sma(close(), 20)),
        gt(adx(14), level(10.0)),
        crosses_below(sma(close(), 5), sma(close(), 20)),
    );
    assert_trades("AdxTrendFilter", |b, e| { s.update(b); s.trade(e) }, &c);
    // A Connors-style short-period RSI: a 14-period RSI rarely pulls back to
    // oversold mid-uptrend, but RSI(2) dips hard on any down-bar.
    let mut s = RsiPullback::new(
        SYMBOL,
        crosses_below(rsi(close(), 2), level(15.0)),
        gt(close(), sma(close(), 20)),
        crosses_above(rsi(close(), 2), level(60.0)),
    );
    assert_trades("RsiPullback", |b, e| { s.update(b); s.trade(e) }, &c);
    let keltner = |up: bool| combine(ema(close(), 20), atr(10), if up { plus_two } else { minus_two });
    let mut s = KeltnerBreakout::new(SYMBOL, gt(close(), keltner(true)), lt(close(), keltner(false)));
    assert_trades("KeltnerBreakout", |b, e| { s.update(b); s.trade(e) }, &c);
}
