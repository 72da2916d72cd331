//! Composite strategies: multiple conditions combined into one entry.
use vstd::prelude::*;

use crate::signal::{lemma_reset_restores, run, And, Signal, SignalExt};

use super::{entry_exit_order, entry_exit_rule, reversal_order, reversal_rule, Exposure, Order};

verus! {

/// ADX-gated moving-average crossover, long/flat.
///
/// Takes the SMA golden cross only when the trend is strong enough — ADX above a
/// minimum — and exits on the death cross, filtering out crossovers in chop.
pub struct AdxTrendFilter<Sym, C, G, X> {
    symbol: Sym,
    enter: And<C, G>,
    exit: X,
}

impl<Sym, C, G, X> AdxTrendFilter<Sym, C, G, X> {
    /// The traded symbol.
    pub closed spec fn traded(self) -> Sym {
        self.symbol
    }

    /// The `enter` signal.
    pub closed spec fn enter_signal(self) -> And<C, G> {
        self.enter
    }

    /// The `exit` signal.
    pub closed spec fn exit_signal(self) -> X {
        self.exit
    }
}

impl<Sym, C, G, X> AdxTrendFilter<Sym, C, G, X> where C: Signal, G: Signal<Input = C::Input>, X: Signal<Input = C::Input>, C::Input: Copy {
    /// An ADX-filtered crossover strategy on `symbol`: it enters when both
    /// `cross_up` (the fast SMA crossing above the slow SMA) and `strong` (the ADX
    /// above its minimum) hold, and exits on `exit` (the fast SMA crossing below the
    /// slow SMA).
    pub fn new(symbol: Sym, cross_up: C, strong: G, exit: X) -> (r: Self)
        ensures
            r.traded() == symbol,
            r.enter_signal() == And::fresh(cross_up, strong),
            r.exit_signal() == exit,
    {
        Self { symbol, enter: cross_up.and(strong), exit }
    }

    /// The traded symbol.
    pub fn symbol(&self) -> (r: &Sym)
        ensures
            *r == self.traded(),
    {
        &self.symbol
    }

    /// Advances both signals on `input`.
    pub fn update(&mut self, input: C::Input)
        ensures
            final(self).traded() == old(self).traded(),
            final(self).enter_signal() == old(self).enter_signal().step(input),
            final(self).exit_signal() == old(self).exit_signal().step(input),
    {
        self.enter.update(input);
        self.exit.update(input);
    }

    /// The order for the current bar, given the current exposure.
    pub fn trade(&self, exposure: Exposure) -> (r: Option<Order>)
        ensures
            r == entry_exit_rule(self.enter_signal().holds(), self.exit_signal().holds(), exposure),
    {
        entry_exit_order(self.enter.value(), self.exit.value(), exposure)
    }

    /// Resets both signals.
    pub fn reset(&mut self)
        ensures
            final(self).traded() == old(self).traded(),
            final(self).enter_signal() == old(self).enter_signal().cleared(),
            final(self).exit_signal() == old(self).exit_signal().cleared(),
    {
        self.enter.reset();
        self.exit.reset();
    }

    /// Built from signals in their reset state, the strategy's signals come
    /// back to exactly their initial state when it is reset after any bars,
    /// so it then replays every bar as it did from the start.
    pub proof fn lemma_reset_restores(self, bars: Seq<C::Input>)
        requires
            self.enter_signal().cleared() == self.enter_signal(),
            self.exit_signal().cleared() == self.exit_signal(),
        ensures
            run(self.enter_signal(), bars).cleared() == self.enter_signal(),
            run(self.exit_signal(), bars).cleared() == self.exit_signal(),
    {
        lemma_reset_restores(self.enter_signal(), bars, bars);
        lemma_reset_restores(self.exit_signal(), bars, bars);
    }
}

/// RSI pullback within an uptrend, long/flat.
///
/// Buys an RSI dip (RSI crossing down through an oversold level) **only while**
/// the close is above its long trend SMA, so dips are bought with the trend, not
/// against it. Exits when RSI recovers up through an exit level.
pub struct RsiPullback<Sym, C, G, X> {
    symbol: Sym,
    enter: And<C, G>,
    exit: X,
}

impl<Sym, C, G, X> RsiPullback<Sym, C, G, X> {
    /// The traded symbol.
    pub closed spec fn traded(self) -> Sym {
        self.symbol
    }

    /// The `enter` signal.
    pub closed spec fn enter_signal(self) -> And<C, G> {
        self.enter
    }

    /// The `exit` signal.
    pub closed spec fn exit_signal(self) -> X {
        self.exit
    }
}

impl<Sym, C, G, X> RsiPullback<Sym, C, G, X> where C: Signal, G: Signal<Input = C::Input>, X: Signal<Input = C::Input>, C::Input: Copy {
    /// An RSI pullback strategy on `symbol`: it enters when both `dip` (the RSI
    /// crossing below the oversold level) and `uptrend` (the close above its trend
    /// SMA) hold, and exits on `exit` (the RSI crossing above the exit level).
    pub fn new(symbol: Sym, dip: C, uptrend: G, exit: X) -> (r: Self)
        ensures
            r.traded() == symbol,
            r.enter_signal() == And::fresh(dip, uptrend),
            r.exit_signal() == exit,
    {
        Self { symbol, enter: dip.and(uptrend), exit }
    }

    /// The traded symbol.
    pub fn symbol(&self) -> (r: &Sym)
        ensures
            *r == self.traded(),
    {
        &self.symbol
    }

    /// Advances both signals on `input`.
    pub fn update(&mut self, input: C::Input)
        ensures
            final(self).traded() == old(self).traded(),
            final(self).enter_signal() == old(self).enter_signal().step(input),
            final(self).exit_signal() == old(self).exit_signal().step(input),
    {
        self.enter.update(input);
        self.exit.update(input);
    }

    /// The order for the current bar, given the current exposure.
    pub fn trade(&self, exposure: Exposure) -> (r: Option<Order>)
        ensures
            r == entry_exit_rule(self.enter_signal().holds(), self.exit_signal().holds(), exposure),
    {
        entry_exit_order(self.enter.value(), self.exit.value(), exposure)
    }

    /// Resets both signals.
    pub fn reset(&mut self)
        ensures
            final(self).traded() == old(self).traded(),
            final(self).enter_signal() == old(self).enter_signal().cleared(),
            final(self).exit_signal() == old(self).exit_signal().cleared(),
    {
        self.enter.reset();
        self.exit.reset();
    }

    /// Built from signals in their reset state, the strategy's signals come
    /// back to exactly their initial state when it is reset after any bars,
    /// so it then replays every bar as it did from the start.
    pub proof fn lemma_reset_restores(self, bars: Seq<C::Input>)
        requires
            self.enter_signal().cleared() == self.enter_signal(),
            self.exit_signal().cleared() == self.exit_signal(),
        ensures
            run(self.enter_signal(), bars).cleared() == self.enter_signal(),
            run(self.exit_signal(), bars).cleared() == self.exit_signal(),
    {
        lemma_reset_restores(self.enter_signal(), bars, bars);
        lemma_reset_restores(self.exit_signal(), bars, bars);
    }
}

/// Keltner-channel breakout, always-in long/short.
///
/// An ATR-banded cousin of the Bollinger breakout: long when the close pierces
/// the upper Keltner band, short below the lower one.
pub struct KeltnerBreakout<Sym, U, D> {
    symbol: Sym,
    up: U,
    down: D,
}

impl<Sym, U, D> KeltnerBreakout<Sym, U, D> {
    /// The traded symbol.
    pub closed spec fn traded(self) -> Sym {
        self.symbol
    }

    /// The `up` signal.
    pub closed spec fn up_signal(self) -> U {
        self.up
    }

    /// The `down` signal.
    pub closed spec fn down_signal(self) -> D {
        self.down
    }
}

impl<Sym, U, D> KeltnerBreakout<Sym, U, D> where U: Signal, D: Signal<Input = U::Input>, U::Input: Copy {
    /// A Keltner breakout strategy on `symbol`: `up` is the close above the upper
    /// Keltner band, `down` the close below the lower band.
    pub fn new(symbol: Sym, up: U, down: D) -> (r: Self)
        ensures
            r.traded() == symbol,
            r.up_signal() == up,
            r.down_signal() == down,
    {
        Self { symbol, up, down }
    }

    /// The traded symbol.
    pub fn symbol(&self) -> (r: &Sym)
        ensures
            *r == self.traded(),
    {
        &self.symbol
    }

    /// Advances both signals on `input`.
    pub fn update(&mut self, input: U::Input)
        ensures
            final(self).traded() == old(self).traded(),
            final(self).up_signal() == old(self).up_signal().step(input),
            final(self).down_signal() == old(self).down_signal().step(input),
    {
        self.up.update(input);
        self.down.update(input);
    }

    /// The order for the current bar, given the current exposure.
    pub fn trade(&self, exposure: Exposure) -> (r: Option<Order>)
        ensures
            r == reversal_rule(self.up_signal().holds(), self.down_signal().holds(), exposure),
    {
        reversal_order(self.up.value(), self.down.value(), exposure)
    }

    /// Resets both signals.
    pub fn reset(&mut self)
        ensures
            final(self).traded() == old(self).traded(),
            final(self).up_signal() == old(self).up_signal().cleared(),
            final(self).down_signal() == old(self).down_signal().cleared(),
    {
        self.up.reset();
        self.down.reset();
    }

    /// Built from signals in their reset state, the strategy's signals come
    /// back to exactly their initial state when it is reset after any bars,
    /// so it then replays every bar as it did from the start.
    pub proof fn lemma_reset_restores(self, bars: Seq<U::Input>)
        requires
            self.up_signal().cleared() == self.up_signal(),
            self.down_signal().cleared() == self.down_signal(),
        ensures
            run(self.up_signal(), bars).cleared() == self.up_signal(),
            run(self.down_signal(), bars).cleared() == self.down_signal(),
    {
        lemma_reset_restores(self.up_signal(), bars, bars);
        lemma_reset_restores(self.down_signal(), bars, bars);
    }
}

} // verus!
