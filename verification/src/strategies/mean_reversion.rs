//! Mean-reversion strategies: fade an extreme, exit as price returns to normal.
use vstd::prelude::*;

use crate::signal::{lemma_reset_restores, run, Signal};

use super::{entry_exit_order, entry_exit_rule, Exposure, Order, Side};

verus! {

/// RSI oversold-bounce, long/flat.
///
/// Buys the dip when RSI crosses *down* through an oversold level, and exits when
/// RSI recovers up through an exit level (e.g. 30 → 50).
pub struct RsiReversal<Sym, E, X> {
    symbol: Sym,
    enter: E,
    exit: X,
}

impl<Sym, E, X> RsiReversal<Sym, E, X> {
    /// The traded symbol.
    pub closed spec fn traded(self) -> Sym {
        self.symbol
    }

    /// The `enter` signal.
    pub closed spec fn enter_signal(self) -> E {
        self.enter
    }

    /// The `exit` signal.
    pub closed spec fn exit_signal(self) -> X {
        self.exit
    }
}

impl<Sym, E, X> RsiReversal<Sym, E, X> where E: Signal, X: Signal<Input = E::Input>, E::Input: Copy {
    /// An RSI reversal strategy on `symbol`: `enter` is the RSI crossing below the
    /// oversold level, `exit` the RSI crossing above the exit level.
    pub fn new(symbol: Sym, enter: E, exit: X) -> (r: Self)
        ensures
            r.traded() == symbol,
            r.enter_signal() == enter,
            r.exit_signal() == exit,
    {
        Self { symbol, enter, exit }
    }

    /// The traded symbol.
    pub fn symbol(&self) -> (r: &Sym)
        ensures
            *r == self.traded(),
    {
        &self.symbol
    }

    /// Advances both signals on `input`.
    pub fn update(&mut self, input: E::Input)
        ensures
            final(self).traded() == old(self).traded(),
            final(self).enter_signal() == old(self).enter_signal().step(input),
            final(self).exit_signal() == old(self).exit_signal().step(input),
    {
        self.enter.update(input);
        self.exit.update(input);
    }

    /// The order for the current bar, given the current exposure.
    pub fn trade(&self, exposure: Exposure) -> (r: Option<Order>)
        ensures
            r == entry_exit_rule(self.enter_signal().holds(), self.exit_signal().holds(), exposure),
    {
        entry_exit_order(self.enter.value(), self.exit.value(), exposure)
    }

    /// Resets both signals.
    pub fn reset(&mut self)
        ensures
            final(self).traded() == old(self).traded(),
            final(self).enter_signal() == old(self).enter_signal().cleared(),
            final(self).exit_signal() == old(self).exit_signal().cleared(),
    {
        self.enter.reset();
        self.exit.reset();
    }

    /// Built from signals in their reset state, the strategy's signals come
    /// back to exactly their initial state when it is reset after any bars,
    /// so it then replays every bar as it did from the start.
    pub proof fn lemma_reset_restores(self, bars: Seq<E::Input>)
        requires
            self.enter_signal().cleared() == self.enter_signal(),
            self.exit_signal().cleared() == self.exit_signal(),
        ensures
            run(self.enter_signal(), bars).cleared() == self.enter_signal(),
            run(self.exit_signal(), bars).cleared() == self.exit_signal(),
    {
        lemma_reset_restores(self.enter_signal(), bars, bars);
        lemma_reset_restores(self.exit_signal(), bars, bars);
    }
}

/// Bollinger-band reversion, long/flat.
///
/// Buys when the close crosses below the lower band and exits when it crosses
/// back above the middle band (the moving average). Fades the bands rather than
/// chasing the breakout.
pub struct BollingerReversion<Sym, E, X> {
    symbol: Sym,
    enter: E,
    exit: X,
}

impl<Sym, E, X> BollingerReversion<Sym, E, X> {
    /// The traded symbol.
    pub closed spec fn traded(self) -> Sym {
        self.symbol
    }

    /// The `enter` signal.
    pub closed spec fn enter_signal(self) -> E {
        self.enter
    }

    /// The `exit` signal.
    pub closed spec fn exit_signal(self) -> X {
        self.exit
    }
}

impl<Sym, E, X> BollingerReversion<Sym, E, X> where E: Signal, X: Signal<Input = E::Input>, E::Input: Copy {
    /// A Bollinger reversion strategy on `symbol`: `enter` is the close crossing
    /// below the lower band, `exit` the close crossing above the middle band.
    pub fn new(symbol: Sym, enter: E, exit: X) -> (r: Self)
        ensures
            r.traded() == symbol,
            r.enter_signal() == enter,
            r.exit_signal() == exit,
    {
        Self { symbol, enter, exit }
    }

    /// The traded symbol.
    pub fn symbol(&self) -> (r: &Sym)
        ensures
            *r == self.traded(),
    {
        &self.symbol
    }

    /// Advances both signals on `input`.
    pub fn update(&mut self, input: E::Input)
        ensures
            final(self).traded() == old(self).traded(),
            final(self).enter_signal() == old(self).enter_signal().step(input),
            final(self).exit_signal() == old(self).exit_signal().step(input),
    {
        self.enter.update(input);
        self.exit.update(input);
    }

    /// The order for the current bar, given the current exposure.
    pub fn trade(&self, exposure: Exposure) -> (r: Option<Order>)
        ensures
            r == entry_exit_rule(self.enter_signal().holds(), self.exit_signal().holds(), exposure),
    {
        entry_exit_order(self.enter.value(), self.exit.value(), exposure)
    }

    /// Resets both signals.
    pub fn reset(&mut self)
        ensures
            final(self).traded() == old(self).traded(),
            final(self).enter_signal() == old(self).enter_signal().cleared(),
            final(self).exit_signal() == old(self).exit_signal().cleared(),
    {
        self.enter.reset();
        self.exit.reset();
    }

    /// Built from signals in their reset state, the strategy's signals come
    /// back to exactly their initial state when it is reset after any bars,
    /// so it then replays every bar as it did from the start.
    pub proof fn lemma_reset_restores(self, bars: Seq<E::Input>)
        requires
            self.enter_signal().cleared() == self.enter_signal(),
            self.exit_signal().cleared() == self.exit_signal(),
        ensures
            run(self.enter_signal(), bars).cleared() == self.enter_signal(),
            run(self.exit_signal(), bars).cleared() == self.exit_signal(),
    {
        lemma_reset_restores(self.enter_signal(), bars, bars);
        lemma_reset_restores(self.exit_signal(), bars, bars);
    }
}

/// Stochastic oscillator oversold-bounce, long/flat.
///
/// The stochastic ranges `0..1`, so its levels are fractions (e.g. 0.2 / 0.8).
/// Buys when %K crosses down through the oversold level, exits when it crosses up
/// through the overbought level.
pub struct StochasticReversal<Sym, E, X> {
    symbol: Sym,
    enter: E,
    exit: X,
}

impl<Sym, E, X> StochasticReversal<Sym, E, X> {
    /// The traded symbol.
    pub closed spec fn traded(self) -> Sym {
        self.symbol
    }

    /// The `enter` signal.
    pub closed spec fn enter_signal(self) -> E {
        self.enter
    }

    /// The `exit` signal.
    pub closed spec fn exit_signal(self) -> X {
        self.exit
    }
}

impl<Sym, E, X> StochasticReversal<Sym, E, X> where E: Signal, X: Signal<Input = E::Input>, E::Input: Copy {
    /// A stochastic reversal strategy on `symbol`: `enter` is %K crossing below the
    /// oversold level, `exit` %K crossing above the overbought level.
    pub fn new(symbol: Sym, enter: E, exit: X) -> (r: Self)
        ensures
            r.traded() == symbol,
            r.enter_signal() == enter,
            r.exit_signal() == exit,
    {
        Self { symbol, enter, exit }
    }

    /// The traded symbol.
    pub fn symbol(&self) -> (r: &Sym)
        ensures
            *r == self.traded(),
    {
        &self.symbol
    }

    /// Advances both signals on `input`.
    pub fn update(&mut self, input: E::Input)
        ensures
            final(self).traded() == old(self).traded(),
            final(self).enter_signal() == old(self).enter_signal().step(input),
            final(self).exit_signal() == old(self).exit_signal().step(input),
    {
        self.enter.update(input);
        self.exit.update(input);
    }

    /// The order for the current bar, given the current exposure.
    pub fn trade(&self, exposure: Exposure) -> (r: Option<Order>)
        ensures
            r == entry_exit_rule(self.enter_signal().holds(), self.exit_signal().holds(), exposure),
    {
        entry_exit_order(self.enter.value(), self.exit.value(), exposure)
    }

    /// Resets both signals.
    pub fn reset(&mut self)
        ensures
            final(self).traded() == old(self).traded(),
            final(self).enter_signal() == old(self).enter_signal().cleared(),
            final(self).exit_signal() == old(self).exit_signal().cleared(),
    {
        self.enter.reset();
        self.exit.reset();
    }

    /// Built from signals in their reset state, the strategy's signals come
    /// back to exactly their initial state when it is reset after any bars,
    /// so it then replays every bar as it did from the start.
    pub proof fn lemma_reset_restores(self, bars: Seq<E::Input>)
        requires
            self.enter_signal().cleared() == self.enter_signal(),
            self.exit_signal().cleared() == self.exit_signal(),
        ensures
            run(self.enter_signal(), bars).cleared() == self.enter_signal(),
            run(self.exit_signal(), bars).cleared() == self.exit_signal(),
    {
        lemma_reset_restores(self.enter_signal(), bars, bars);
        lemma_reset_restores(self.exit_signal(), bars, bars);
    }
}

/// StochRSI oversold-bounce, long/flat.
///
/// The stochastic transform over an RSI source (also `0..1`): a more responsive
/// oscillator than either alone. Same dip-buy / recovery-exit edges as
/// `StochasticReversal`.
pub struct StochRsiReversal<Sym, E, X> {
    symbol: Sym,
    enter: E,
    exit: X,
}

impl<Sym, E, X> StochRsiReversal<Sym, E, X> {
    /// The traded symbol.
    pub closed spec fn traded(self) -> Sym {
        self.symbol
    }

    /// The `enter` signal.
    pub closed spec fn enter_signal(self) -> E {
        self.enter
    }

    /// The `exit` signal.
    pub closed spec fn exit_signal(self) -> X {
        self.exit
    }
}

impl<Sym, E, X> StochRsiReversal<Sym, E, X> where E: Signal, X: Signal<Input = E::Input>, E::Input: Copy {
    /// A StochRSI reversal strategy on `symbol`: `enter` is the StochRSI crossing
    /// below the oversold level, `exit` it crossing above the overbought level.
    pub fn new(symbol: Sym, enter: E, exit: X) -> (r: Self)
        ensures
            r.traded() == symbol,
            r.enter_signal() == enter,
            r.exit_signal() == exit,
    {
        Self { symbol, enter, exit }
    }

    /// The traded symbol.
    pub fn symbol(&self) -> (r: &Sym)
        ensures
            *r == self.traded(),
    {
        &self.symbol
    }

    /// Advances both signals on `input`.
    pub fn update(&mut self, input: E::Input)
        ensures
            final(self).traded() == old(self).traded(),
            final(self).enter_signal() == old(self).enter_signal().step(input),
            final(self).exit_signal() == old(self).exit_signal().step(input),
    {
        self.enter.update(input);
        self.exit.update(input);
    }

    /// The order for the current bar, given the current exposure.
    pub fn trade(&self, exposure: Exposure) -> (r: Option<Order>)
        ensures
            r == entry_exit_rule(self.enter_signal().holds(), self.exit_signal().holds(), exposure),
    {
        entry_exit_order(self.enter.value(), self.exit.value(), exposure)
    }

    /// Resets both signals.
    pub fn reset(&mut self)
        ensures
            final(self).traded() == old(self).traded(),
            final(self).enter_signal() == old(self).enter_signal().cleared(),
            final(self).exit_signal() == old(self).exit_signal().cleared(),
    {
        self.enter.reset();
        self.exit.reset();
    }

    /// Built from signals in their reset state, the strategy's signals come
    /// back to exactly their initial state when it is reset after any bars,
    /// so it then replays every bar as it did from the start.
    pub proof fn lemma_reset_restores(self, bars: Seq<E::Input>)
        requires
            self.enter_signal().cleared() == self.enter_signal(),
            self.exit_signal().cleared() == self.exit_signal(),
        ensures
            run(self.enter_signal(), bars).cleared() == self.enter_signal(),
            run(self.exit_signal(), bars).cleared() == self.exit_signal(),
    {
        lemma_reset_restores(self.enter_signal(), bars, bars);
        lemma_reset_restores(self.exit_signal(), bars, bars);
    }
}

/// Money-Flow-Index oversold-bounce, long/flat.
///
/// Volume-weighted RSI cousin (`0..100`): buys when MFI crosses down through the
/// oversold level, exits when it crosses up through the overbought level (e.g.
/// 20 / 80).
pub struct MfiReversal<Sym, E, X> {
    symbol: Sym,
    enter: E,
    exit: X,
}

impl<Sym, E, X> MfiReversal<Sym, E, X> {
    /// The traded symbol.
    pub closed spec fn traded(self) -> Sym {
        self.symbol
    }

    /// The `enter` signal.
    pub closed spec fn enter_signal(self) -> E {
        self.enter
    }

    /// The `exit` signal.
    pub closed spec fn exit_signal(self) -> X {
        self.exit
    }
}

impl<Sym, E, X> MfiReversal<Sym, E, X> where E: Signal, X: Signal<Input = E::Input>, E::Input: Copy {
    /// An MFI reversal strategy on `symbol`: `enter` is the MFI crossing below the
    /// oversold level, `exit` the MFI crossing above the overbought level.
    pub fn new(symbol: Sym, enter: E, exit: X) -> (r: Self)
        ensures
            r.traded() == symbol,
            r.enter_signal() == enter,
            r.exit_signal() == exit,
    {
        Self { symbol, enter, exit }
    }

    /// The traded symbol.
    pub fn symbol(&self) -> (r: &Sym)
        ensures
            *r == self.traded(),
    {
        &self.symbol
    }

    /// Advances both signals on `input`.
    pub fn update(&mut self, input: E::Input)
        ensures
            final(self).traded() == old(self).traded(),
            final(self).enter_signal() == old(self).enter_signal().step(input),
            final(self).exit_signal() == old(self).exit_signal().step(input),
    {
        self.enter.update(input);
        self.exit.update(input);
    }

    /// The order for the current bar, given the current exposure.
    pub fn trade(&self, exposure: Exposure) -> (r: Option<Order>)
        ensures
            r == entry_exit_rule(self.enter_signal().holds(), self.exit_signal().holds(), exposure),
    {
        entry_exit_order(self.enter.value(), self.exit.value(), exposure)
    }

    /// Resets both signals.
    pub fn reset(&mut self)
        ensures
            final(self).traded() == old(self).traded(),
            final(self).enter_signal() == old(self).enter_signal().cleared(),
            final(self).exit_signal() == old(self).exit_signal().cleared(),
    {
        self.enter.reset();
        self.exit.reset();
    }

    /// Built from signals in their reset state, the strategy's signals come
    /// back to exactly their initial state when it is reset after any bars,
    /// so it then replays every bar as it did from the start.
    pub proof fn lemma_reset_restores(self, bars: Seq<E::Input>)
        requires
            self.enter_signal().cleared() == self.enter_signal(),
            self.exit_signal().cleared() == self.exit_signal(),
        ensures
            run(self.enter_signal(), bars).cleared() == self.enter_signal(),
            run(self.exit_signal(), bars).cleared() == self.exit_signal(),
    {
        lemma_reset_restores(self.enter_signal(), bars, bars);
        lemma_reset_restores(self.exit_signal(), bars, bars);
    }
}

/// Where the z-score `z = (close − SMA) / StdDev` of a bar stands: against the
/// entry threshold `entry` (`cheap` when `z ≤ −entry`, `rich` when
/// `z ≥ entry`) and against the mean (`z ≥ 0`, `z ≤ 0`).
#[derive(Debug, Clone, Copy, PartialEq, Eq, Structural)]
pub struct ZScore {
    pub cheap: bool,
    pub rich: bool,
    pub at_or_above_mean: bool,
    pub at_or_below_mean: bool,
}

/// The z-score rule: once the z-score is ready, go all-in long when cheap
/// unless long, else all-in short when rich unless short, else close a long
/// at or above the mean or a short at or below it.
pub open spec fn zscore_rule(z: Option<ZScore>, exposure: Exposure) -> Option<Order> {
    match z {
        None => None,
        Some(z) => if z.cheap && !exposure.long() {
            Some(Order::AllIn(Side::Buy))
        } else if z.rich && !exposure.short() {
            Some(Order::AllIn(Side::Sell))
        } else if (exposure.long() && z.at_or_above_mean) || (exposure.short()
            && z.at_or_below_mean) {
            Some(Order::Close)
        } else {
            None
        },
    }
}

/// The z-score strategy never enters the side it already holds, and only
/// closes a position it holds, once the z-score is back at the mean.
pub proof fn lemma_zscore_rule(z: Option<ZScore>, exposure: Exposure)
    ensures
        zscore_rule(z, exposure) == Some(Order::AllIn(Side::Buy)) ==> !exposure.long() && z->0.cheap,
        zscore_rule(z, exposure) == Some(Order::AllIn(Side::Sell)) ==> !exposure.short()
            && z->0.rich,
        zscore_rule(z, exposure) == Some(Order::Close) ==> (exposure.long()
            && z->0.at_or_above_mean) || (exposure.short() && z->0.at_or_below_mean),
        z is None ==> zscore_rule(z, exposure) is None,
        z matches Some(r) && r.cheap && !exposure.long() ==> zscore_rule(z, exposure) == Some(
            Order::AllIn(Side::Buy),
        ),
        z matches Some(r) && r.rich && !exposure.short() && !(r.cheap && !exposure.long())
            ==> zscore_rule(z, exposure) == Some(Order::AllIn(Side::Sell)),
        z matches Some(r) && exposure.short() && r.at_or_below_mean && !r.cheap ==> zscore_rule(
            z,
            exposure,
        ) == Some(Order::Close),
        z matches Some(r) && exposure.long() && r.at_or_above_mean && !r.rich ==> zscore_rule(
            z,
            exposure,
        ) == Some(Order::Close),
        z matches Some(r) && !(r.cheap && !exposure.long()) && !(r.rich && !exposure.short())
            && !(exposure.long() && r.at_or_above_mean) && !(exposure.short() && r.at_or_below_mean)
            ==> zscore_rule(z, exposure) is None,
{
}

/// Z-score reversion, always-in long/short.
///
/// Trades the standardised deviation of price from its mean: long when cheap,
/// short when rich, and flattening once `z` reverts back through zero.
pub struct ZScoreReversion<Sym> {
    symbol: Sym,
    period: usize,
}

impl<Sym> ZScoreReversion<Sym> {
    /// The traded symbol.
    pub closed spec fn traded(self) -> Sym {
        self.symbol
    }

    /// The SMA / standard-deviation lookback, in bars.
    pub closed spec fn lookback(self) -> usize {
        self.period
    }

    /// A z-score reversion strategy on `symbol` over `period` bars.
    pub fn new(symbol: Sym, period: usize) -> (r: Self)
        ensures
            r.traded() == symbol,
            r.lookback() == period,
    {
        Self { symbol, period }
    }

    /// The traded symbol.
    pub fn symbol(&self) -> (r: &Sym)
        ensures
            *r == self.traded(),
    {
        &self.symbol
    }

    /// The SMA / standard-deviation lookback, in bars.
    pub fn period(&self) -> (r: usize)
        ensures
            r == self.lookback(),
    {
        self.period
    }

    /// The order for the current bar, given where the z-score stands (`None`
    /// while it is not yet available) and the current exposure.
    pub fn trade(&self, z: Option<ZScore>, exposure: Exposure) -> (r: Option<Order>)
        ensures
            r == zscore_rule(z, exposure),
    {
        match z {
            None => None,
            Some(z) => if z.cheap && !exposure.is_long() {
                Some(Order::AllIn(Side::Buy))
            } else if z.rich && !exposure.is_short() {
                Some(Order::AllIn(Side::Sell))
            } else if (exposure.is_long() && z.at_or_above_mean) || (exposure.is_short()
                && z.at_or_below_mean) {
                Some(Order::Close)
            } else {
                None
            },
        }
    }
}

} // verus!
