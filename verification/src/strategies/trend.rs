//! Trend-following strategies: crossover and breakout entries that ride a move.
use vstd::prelude::*;

use crate::signal::{lemma_reset_restores, run, And, Signal, SignalExt};

use super::{holding_order, holding_rule, reversal_order, reversal_rule, Exposure, Order};

verus! {

/// Moving-average crossover (the "golden / death cross"), always-in long/short.
///
/// Goes long when the fast SMA crosses above the slow SMA and reverses to short
/// on the opposite cross, always committing all funds to the prevailing side.
pub struct MaCrossover<Sym, U, D> {
    symbol: Sym,
    up: U,
    down: D,
}

impl<Sym, U, D> MaCrossover<Sym, U, D> {
    /// The traded symbol.
    pub closed spec fn traded(self) -> Sym {
        self.symbol
    }

    /// The `up` signal.
    pub closed spec fn up_signal(self) -> U {
        self.up
    }

    /// The `down` signal.
    pub closed spec fn down_signal(self) -> D {
        self.down
    }
}

impl<Sym, U, D> MaCrossover<Sym, U, D> where U: Signal, D: Signal<Input = U::Input>, U::Input: Copy {
    /// A crossover strategy on `symbol`: `up` is the fast SMA of the close crossing
    /// above the slow SMA, `down` the fast SMA crossing below it.
    pub fn new(symbol: Sym, up: U, down: D) -> (r: Self)
        ensures
            r.traded() == symbol,
            r.up_signal() == up,
            r.down_signal() == down,
    {
        Self { symbol, up, down }
    }

    /// The traded symbol.
    pub fn symbol(&self) -> (r: &Sym)
        ensures
            *r == self.traded(),
    {
        &self.symbol
    }

    /// Advances both signals on `input`, then decides the order for this bar
    /// given the current exposure.
    pub fn evaluate(&mut self, input: U::Input, exposure: Exposure) -> (r: Option<Order>)
        ensures
            final(self).traded() == old(self).traded(),
            final(self).up_signal() == old(self).up_signal().step(input),
            final(self).down_signal() == old(self).down_signal().step(input),
            r == reversal_rule(final(self).up_signal().holds(), final(self).down_signal().holds(), exposure),
    {
        let up = self.up.update(input);
        let down = self.down.update(input);
        reversal_order(up, down, exposure)
    }

    /// Resets both signals.
    pub fn reset(&mut self)
        ensures
            final(self).traded() == old(self).traded(),
            final(self).up_signal() == old(self).up_signal().cleared(),
            final(self).down_signal() == old(self).down_signal().cleared(),
    {
        self.up.reset();
        self.down.reset();
    }

    /// Built from signals in their reset state, the strategy's signals come
    /// back to exactly their initial state when it is reset after any bars,
    /// so it then replays every bar as it did from the start.
    pub proof fn lemma_reset_restores(self, bars: Seq<U::Input>)
        requires
            self.up_signal().cleared() == self.up_signal(),
            self.down_signal().cleared() == self.down_signal(),
        ensures
            run(self.up_signal(), bars).cleared() == self.up_signal(),
            run(self.down_signal(), bars).cleared() == self.down_signal(),
    {
        lemma_reset_restores(self.up_signal(), bars, bars);
        lemma_reset_restores(self.down_signal(), bars, bars);
    }
}

/// MACD line / signal-line crossover, always-in long/short.
///
/// Long when the MACD line crosses above its signal line, short on the opposite
/// cross.
pub struct MacdCrossover<Sym, U, D> {
    symbol: Sym,
    up: U,
    down: D,
}

impl<Sym, U, D> MacdCrossover<Sym, U, D> {
    /// The traded symbol.
    pub closed spec fn traded(self) -> Sym {
        self.symbol
    }

    /// The `up` signal.
    pub closed spec fn up_signal(self) -> U {
        self.up
    }

    /// The `down` signal.
    pub closed spec fn down_signal(self) -> D {
        self.down
    }
}

impl<Sym, U, D> MacdCrossover<Sym, U, D> where U: Signal, D: Signal<Input = U::Input>, U::Input: Copy {
    /// A MACD crossover strategy on `symbol`: `up` is the MACD line crossing above
    /// its signal line, `down` the MACD line crossing below it.
    pub fn new(symbol: Sym, up: U, down: D) -> (r: Self)
        ensures
            r.traded() == symbol,
            r.up_signal() == up,
            r.down_signal() == down,
    {
        Self { symbol, up, down }
    }

    /// The traded symbol.
    pub fn symbol(&self) -> (r: &Sym)
        ensures
            *r == self.traded(),
    {
        &self.symbol
    }

    /// Advances both signals on `input`, then decides the order for this bar
    /// given the current exposure.
    pub fn evaluate(&mut self, input: U::Input, exposure: Exposure) -> (r: Option<Order>)
        ensures
            final(self).traded() == old(self).traded(),
            final(self).up_signal() == old(self).up_signal().step(input),
            final(self).down_signal() == old(self).down_signal().step(input),
            r == reversal_rule(final(self).up_signal().holds(), final(self).down_signal().holds(), exposure),
    {
        let up = self.up.update(input);
        let down = self.down.update(input);
        reversal_order(up, down, exposure)
    }

    /// Resets both signals.
    pub fn reset(&mut self)
        ensures
            final(self).traded() == old(self).traded(),
            final(self).up_signal() == old(self).up_signal().cleared(),
            final(self).down_signal() == old(self).down_signal().cleared(),
    {
        self.up.reset();
        self.down.reset();
    }

    /// Built from signals in their reset state, the strategy's signals come
    /// back to exactly their initial state when it is reset after any bars,
    /// so it then replays every bar as it did from the start.
    pub proof fn lemma_reset_restores(self, bars: Seq<U::Input>)
        requires
            self.up_signal().cleared() == self.up_signal(),
            self.down_signal().cleared() == self.down_signal(),
        ensures
            run(self.up_signal(), bars).cleared() == self.up_signal(),
            run(self.down_signal(), bars).cleared() == self.down_signal(),
    {
        lemma_reset_restores(self.up_signal(), bars, bars);
        lemma_reset_restores(self.down_signal(), bars, bars);
    }
}

/// MACD zero-line crossover, always-in long/short.
///
/// A pure momentum-of-momentum read: long while the MACD line is above zero
/// (fast EMA over slow), short below it, flipping on the zero crossing.
pub struct MacdZeroCross<Sym, U, D> {
    symbol: Sym,
    up: U,
    down: D,
}

impl<Sym, U, D> MacdZeroCross<Sym, U, D> {
    /// The traded symbol.
    pub closed spec fn traded(self) -> Sym {
        self.symbol
    }

    /// The `up` signal.
    pub closed spec fn up_signal(self) -> U {
        self.up
    }

    /// The `down` signal.
    pub closed spec fn down_signal(self) -> D {
        self.down
    }
}

impl<Sym, U, D> MacdZeroCross<Sym, U, D> where U: Signal, D: Signal<Input = U::Input>, U::Input: Copy {
    /// A MACD zero-cross strategy on `symbol`: `up` is the MACD line crossing above
    /// zero, `down` the MACD line crossing below zero.
    pub fn new(symbol: Sym, up: U, down: D) -> (r: Self)
        ensures
            r.traded() == symbol,
            r.up_signal() == up,
            r.down_signal() == down,
    {
        Self { symbol, up, down }
    }

    /// The traded symbol.
    pub fn symbol(&self) -> (r: &Sym)
        ensures
            *r == self.traded(),
    {
        &self.symbol
    }

    /// Advances both signals on `input`, then decides the order for this bar
    /// given the current exposure.
    pub fn evaluate(&mut self, input: U::Input, exposure: Exposure) -> (r: Option<Order>)
        ensures
            final(self).traded() == old(self).traded(),
            final(self).up_signal() == old(self).up_signal().step(input),
            final(self).down_signal() == old(self).down_signal().step(input),
            r == reversal_rule(final(self).up_signal().holds(), final(self).down_signal().holds(), exposure),
    {
        let up = self.up.update(input);
        let down = self.down.update(input);
        reversal_order(up, down, exposure)
    }

    /// Resets both signals.
    pub fn reset(&mut self)
        ensures
            final(self).traded() == old(self).traded(),
            final(self).up_signal() == old(self).up_signal().cleared(),
            final(self).down_signal() == old(self).down_signal().cleared(),
    {
        self.up.reset();
        self.down.reset();
    }

    /// Built from signals in their reset state, the strategy's signals come
    /// back to exactly their initial state when it is reset after any bars,
    /// so it then replays every bar as it did from the start.
    pub proof fn lemma_reset_restores(self, bars: Seq<U::Input>)
        requires
            self.up_signal().cleared() == self.up_signal(),
            self.down_signal().cleared() == self.down_signal(),
        ensures
            run(self.up_signal(), bars).cleared() == self.up_signal(),
            run(self.down_signal(), bars).cleared() == self.down_signal(),
    {
        lemma_reset_restores(self.up_signal(), bars, bars);
        lemma_reset_restores(self.down_signal(), bars, bars);
    }
}

/// Donchian-channel breakout (the classic Turtle entry), always-in long/short.
///
/// Long when the close breaks above the highest high of the prior `period` bars,
/// short when it breaks below the prior `period`-bar low. The channel is lagged
/// one bar so the breakout is measured against the *prior* channel, not one that
/// already contains the breakout bar.
pub struct DonchianBreakout<Sym, U, D> {
    symbol: Sym,
    up: U,
    down: D,
}

impl<Sym, U, D> DonchianBreakout<Sym, U, D> {
    /// The traded symbol.
    pub closed spec fn traded(self) -> Sym {
        self.symbol
    }

    /// The `up` signal.
    pub closed spec fn up_signal(self) -> U {
        self.up
    }

    /// The `down` signal.
    pub closed spec fn down_signal(self) -> D {
        self.down
    }
}

impl<Sym, U, D> DonchianBreakout<Sym, U, D> where U: Signal, D: Signal<Input = U::Input>, U::Input: Copy {
    /// A Donchian breakout strategy on `symbol`: `up` is the close above the
    /// one-bar-lagged upper channel, `down` the close below the lagged lower one.
    pub fn new(symbol: Sym, up: U, down: D) -> (r: Self)
        ensures
            r.traded() == symbol,
            r.up_signal() == up,
            r.down_signal() == down,
    {
        Self { symbol, up, down }
    }

    /// The traded symbol.
    pub fn symbol(&self) -> (r: &Sym)
        ensures
            *r == self.traded(),
    {
        &self.symbol
    }

    /// Advances both signals on `input`, then decides the order for this bar
    /// given the current exposure.
    pub fn evaluate(&mut self, input: U::Input, exposure: Exposure) -> (r: Option<Order>)
        ensures
            final(self).traded() == old(self).traded(),
            final(self).up_signal() == old(self).up_signal().step(input),
            final(self).down_signal() == old(self).down_signal().step(input),
            r == reversal_rule(final(self).up_signal().holds(), final(self).down_signal().holds(), exposure),
    {
        let up = self.up.update(input);
        let down = self.down.update(input);
        reversal_order(up, down, exposure)
    }

    /// Resets both signals.
    pub fn reset(&mut self)
        ensures
            final(self).traded() == old(self).traded(),
            final(self).up_signal() == old(self).up_signal().cleared(),
            final(self).down_signal() == old(self).down_signal().cleared(),
    {
        self.up.reset();
        self.down.reset();
    }

    /// Built from signals in their reset state, the strategy's signals come
    /// back to exactly their initial state when it is reset after any bars,
    /// so it then replays every bar as it did from the start.
    pub proof fn lemma_reset_restores(self, bars: Seq<U::Input>)
        requires
            self.up_signal().cleared() == self.up_signal(),
            self.down_signal().cleared() == self.down_signal(),
        ensures
            run(self.up_signal(), bars).cleared() == self.up_signal(),
            run(self.down_signal(), bars).cleared() == self.down_signal(),
    {
        lemma_reset_restores(self.up_signal(), bars, bars);
        lemma_reset_restores(self.down_signal(), bars, bars);
    }
}

/// Triple moving-average alignment, long/flat.
///
/// Holds a long position only while the three SMAs are stacked bullishly
/// (`fast > mid > slow`), flattening as soon as that alignment breaks.
pub struct TripleMa<Sym, F, M> {
    symbol: Sym,
    aligned: And<F, M>,
}

impl<Sym, F, M> TripleMa<Sym, F, M> {
    /// The traded symbol.
    pub closed spec fn traded(self) -> Sym {
        self.symbol
    }

    /// The `aligned` signal.
    pub closed spec fn aligned_signal(self) -> And<F, M> {
        self.aligned
    }
}

impl<Sym, F, M> TripleMa<Sym, F, M> where F: Signal, M: Signal<Input = F::Input>, F::Input: Copy {
    /// A triple moving-average strategy on `symbol`, aligned while both
    /// `fast_over_mid` (the fast SMA above the mid SMA) and `mid_over_slow` (the mid
    /// SMA above the slow one) hold.
    pub fn new(symbol: Sym, fast_over_mid: F, mid_over_slow: M) -> (r: Self)
        ensures
            r.traded() == symbol,
            r.aligned_signal() == And::fresh(fast_over_mid, mid_over_slow),
    {
        Self { symbol, aligned: fast_over_mid.and(mid_over_slow) }
    }

    /// The traded symbol.
    pub fn symbol(&self) -> (r: &Sym)
        ensures
            *r == self.traded(),
    {
        &self.symbol
    }

    /// Advances the signal on `input`, then decides the order for this bar
    /// given the current exposure.
    pub fn evaluate(&mut self, input: F::Input, exposure: Exposure) -> (r: Option<Order>)
        ensures
            final(self).traded() == old(self).traded(),
            final(self).aligned_signal() == old(self).aligned_signal().step(input),
            r == holding_rule(final(self).aligned_signal().holds(), exposure),
    {
        let aligned = self.aligned.update(input);
        holding_order(aligned, exposure)
    }

    /// Resets the signal.
    pub fn reset(&mut self)
        ensures
            final(self).traded() == old(self).traded(),
            final(self).aligned_signal() == old(self).aligned_signal().cleared(),
    {
        self.aligned.reset();
    }

    /// Built from a signal in its reset state, the strategy's signal comes back
    /// to exactly its initial state when it is reset after any bars, so it
    /// then replays every bar as it did from the start.
    pub proof fn lemma_reset_restores(self, bars: Seq<F::Input>)
        requires
            self.aligned_signal().cleared() == self.aligned_signal(),
        ensures
            run(self.aligned_signal(), bars).cleared() == self.aligned_signal(),
    {
        lemma_reset_restores(self.aligned_signal(), bars, bars);
    }
}

/// Bollinger-band breakout, always-in long/short.
///
/// Treats a close beyond a band as momentum: long above the upper band, short
/// below the lower one. (Contrast `BollingerReversion`, which fades the same
/// bands.)
pub struct BollingerBreakout<Sym, U, D> {
    symbol: Sym,
    up: U,
    down: D,
}

impl<Sym, U, D> BollingerBreakout<Sym, U, D> {
    /// The traded symbol.
    pub closed spec fn traded(self) -> Sym {
        self.symbol
    }

    /// The `up` signal.
    pub closed spec fn up_signal(self) -> U {
        self.up
    }

    /// The `down` signal.
    pub closed spec fn down_signal(self) -> D {
        self.down
    }
}

impl<Sym, U, D> BollingerBreakout<Sym, U, D> where U: Signal, D: Signal<Input = U::Input>, U::Input: Copy {
    /// A Bollinger breakout strategy on `symbol`: `up` is the close above the upper
    /// band, `down` the close below the lower band.
    pub fn new(symbol: Sym, up: U, down: D) -> (r: Self)
        ensures
            r.traded() == symbol,
            r.up_signal() == up,
            r.down_signal() == down,
    {
        Self { symbol, up, down }
    }

    /// The traded symbol.
    pub fn symbol(&self) -> (r: &Sym)
        ensures
            *r == self.traded(),
    {
        &self.symbol
    }

    /// Advances both signals on `input`, then decides the order for this bar
    /// given the current exposure.
    pub fn evaluate(&mut self, input: U::Input, exposure: Exposure) -> (r: Option<Order>)
        ensures
            final(self).traded() == old(self).traded(),
            final(self).up_signal() == old(self).up_signal().step(input),
            final(self).down_signal() == old(self).down_signal().step(input),
            r == reversal_rule(final(self).up_signal().holds(), final(self).down_signal().holds(), exposure),
    {
        let up = self.up.update(input);
        let down = self.down.update(input);
        reversal_order(up, down, exposure)
    }

    /// Resets both signals.
    pub fn reset(&mut self)
        ensures
            final(self).traded() == old(self).traded(),
            final(self).up_signal() == old(self).up_signal().cleared(),
            final(self).down_signal() == old(self).down_signal().cleared(),
    {
        self.up.reset();
        self.down.reset();
    }

    /// Built from signals in their reset state, the strategy's signals come
    /// back to exactly their initial state when it is reset after any bars,
    /// so it then replays every bar as it did from the start.
    pub proof fn lemma_reset_restores(self, bars: Seq<U::Input>)
        requires
            self.up_signal().cleared() == self.up_signal(),
            self.down_signal().cleared() == self.down_signal(),
        ensures
            run(self.up_signal(), bars).cleared() == self.up_signal(),
            run(self.down_signal(), bars).cleared() == self.down_signal(),
    {
        lemma_reset_restores(self.up_signal(), bars, bars);
        lemma_reset_restores(self.down_signal(), bars, bars);
    }
}

} // verus!
