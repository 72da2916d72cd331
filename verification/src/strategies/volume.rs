//! Volume- and money-flow-based strategies.
use vstd::prelude::*;

use crate::signal::{lemma_reset_restores, run, Signal};

use super::{entry_exit_order, entry_exit_rule, holding_order, holding_rule, Exposure, Order};

verus! {

/// On-Balance-Volume trend, long/flat.
///
/// Treats OBV crossing its own moving average as confirmation that volume is
/// backing the move: long while OBV is above its SMA, flat below it.
pub struct ObvTrend<Sym, B> {
    symbol: Sym,
    bullish: B,
}

impl<Sym, B> ObvTrend<Sym, B> {
    /// The traded symbol.
    pub closed spec fn traded(self) -> Sym {
        self.symbol
    }

    /// The `bullish` signal.
    pub closed spec fn bullish_signal(self) -> B {
        self.bullish
    }
}

impl<Sym, B: Signal> ObvTrend<Sym, B> {
    /// An OBV trend strategy on `symbol`: `bullish` is the OBV above its SMA.
    pub fn new(symbol: Sym, bullish: B) -> (r: Self)
        ensures
            r.traded() == symbol,
            r.bullish_signal() == bullish,
    {
        Self { symbol, bullish }
    }

    /// The traded symbol.
    pub fn symbol(&self) -> (r: &Sym)
        ensures
            *r == self.traded(),
    {
        &self.symbol
    }

    /// Advances the signal on `input`.
    pub fn update(&mut self, input: B::Input)
        ensures
            final(self).traded() == old(self).traded(),
            final(self).bullish_signal() == old(self).bullish_signal().step(input),
    {
        self.bullish.update(input);
    }

    /// The order for the current bar, given the current exposure.
    pub fn trade(&self, exposure: Exposure) -> (r: Option<Order>)
        ensures
            r == holding_rule(self.bullish_signal().holds(), exposure),
    {
        holding_order(self.bullish.value(), exposure)
    }

    /// Resets the signal.
    pub fn reset(&mut self)
        ensures
            final(self).traded() == old(self).traded(),
            final(self).bullish_signal() == old(self).bullish_signal().cleared(),
    {
        self.bullish.reset();
    }

    /// Built from a signal in its reset state, the strategy's signal comes back
    /// to exactly its initial state when it is reset after any bars, so it
    /// then replays every bar as it did from the start.
    pub proof fn lemma_reset_restores(self, bars: Seq<B::Input>)
        requires
            self.bullish_signal().cleared() == self.bullish_signal(),
        ensures
            run(self.bullish_signal(), bars).cleared() == self.bullish_signal(),
    {
        lemma_reset_restores(self.bullish_signal(), bars, bars);
    }
}

/// VWAP reversion, long/flat.
///
/// Buys when price dips below the (session-anchored) VWAP and exits when it
/// recovers above — a classic intraday "fair value" fade. Reset at each session
/// boundary to re-anchor the VWAP.
pub struct VwapReversion<Sym, E, X> {
    symbol: Sym,
    enter: E,
    exit: X,
}

impl<Sym, E, X> VwapReversion<Sym, E, X> {
    /// The traded symbol.
    pub closed spec fn traded(self) -> Sym {
        self.symbol
    }

    /// The `enter` signal.
    pub closed spec fn enter_signal(self) -> E {
        self.enter
    }

    /// The `exit` signal.
    pub closed spec fn exit_signal(self) -> X {
        self.exit
    }
}

impl<Sym, E, X> VwapReversion<Sym, E, X> where E: Signal, X: Signal<Input = E::Input>, E::Input: Copy {
    /// A VWAP reversion strategy on `symbol`: `enter` is the close crossing below the
    /// VWAP, `exit` the close crossing above it.
    pub fn new(symbol: Sym, enter: E, exit: X) -> (r: Self)
        ensures
            r.traded() == symbol,
            r.enter_signal() == enter,
            r.exit_signal() == exit,
    {
        Self { symbol, enter, exit }
    }

    /// The traded symbol.
    pub fn symbol(&self) -> (r: &Sym)
        ensures
            *r == self.traded(),
    {
        &self.symbol
    }

    /// Advances both signals on `input`.
    pub fn update(&mut self, input: E::Input)
        ensures
            final(self).traded() == old(self).traded(),
            final(self).enter_signal() == old(self).enter_signal().step(input),
            final(self).exit_signal() == old(self).exit_signal().step(input),
    {
        self.enter.update(input);
        self.exit.update(input);
    }

    /// The order for the current bar, given the current exposure.
    pub fn trade(&self, exposure: Exposure) -> (r: Option<Order>)
        ensures
            r == entry_exit_rule(self.enter_signal().holds(), self.exit_signal().holds(), exposure),
    {
        entry_exit_order(self.enter.value(), self.exit.value(), exposure)
    }

    /// Resets both signals.
    pub fn reset(&mut self)
        ensures
            final(self).traded() == old(self).traded(),
            final(self).enter_signal() == old(self).enter_signal().cleared(),
            final(self).exit_signal() == old(self).exit_signal().cleared(),
    {
        self.enter.reset();
        self.exit.reset();
    }

    /// Built from signals in their reset state, the strategy's signals come
    /// back to exactly their initial state when it is reset after any bars,
    /// so it then replays every bar as it did from the start.
    pub proof fn lemma_reset_restores(self, bars: Seq<E::Input>)
        requires
            self.enter_signal().cleared() == self.enter_signal(),
            self.exit_signal().cleared() == self.exit_signal(),
        ensures
            run(self.enter_signal(), bars).cleared() == self.enter_signal(),
            run(self.exit_signal(), bars).cleared() == self.exit_signal(),
    {
        lemma_reset_restores(self.enter_signal(), bars, bars);
        lemma_reset_restores(self.exit_signal(), bars, bars);
    }
}

/// Chaikin Accumulation/Distribution trend, long/flat.
///
/// Like `ObvTrend` but on the Chaikin A/D line, which weights each bar's volume
/// by where the close fell within its range: long while the A/D line is above its
/// moving average, flat below.
pub struct ChaikinAdTrend<Sym, B> {
    symbol: Sym,
    bullish: B,
}

impl<Sym, B> ChaikinAdTrend<Sym, B> {
    /// The traded symbol.
    pub closed spec fn traded(self) -> Sym {
        self.symbol
    }

    /// The `bullish` signal.
    pub closed spec fn bullish_signal(self) -> B {
        self.bullish
    }
}

impl<Sym, B: Signal> ChaikinAdTrend<Sym, B> {
    /// A Chaikin A/D trend strategy on `symbol`: `bullish` is the A/D line above its
    /// SMA.
    pub fn new(symbol: Sym, bullish: B) -> (r: Self)
        ensures
            r.traded() == symbol,
            r.bullish_signal() == bullish,
    {
        Self { symbol, bullish }
    }

    /// The traded symbol.
    pub fn symbol(&self) -> (r: &Sym)
        ensures
            *r == self.traded(),
    {
        &self.symbol
    }

    /// Advances the signal on `input`.
    pub fn update(&mut self, input: B::Input)
        ensures
            final(self).traded() == old(self).traded(),
            final(self).bullish_signal() == old(self).bullish_signal().step(input),
    {
        self.bullish.update(input);
    }

    /// The order for the current bar, given the current exposure.
    pub fn trade(&self, exposure: Exposure) -> (r: Option<Order>)
        ensures
            r == holding_rule(self.bullish_signal().holds(), exposure),
    {
        holding_order(self.bullish.value(), exposure)
    }

    /// Resets the signal.
    pub fn reset(&mut self)
        ensures
            final(self).traded() == old(self).traded(),
            final(self).bullish_signal() == old(self).bullish_signal().cleared(),
    {
        self.bullish.reset();
    }

    /// Built from a signal in its reset state, the strategy's signal comes back
    /// to exactly its initial state when it is reset after any bars, so it
    /// then replays every bar as it did from the start.
    pub proof fn lemma_reset_restores(self, bars: Seq<B::Input>)
        requires
            self.bullish_signal().cleared() == self.bullish_signal(),
        ensures
            run(self.bullish_signal(), bars).cleared() == self.bullish_signal(),
    {
        lemma_reset_restores(self.bullish_signal(), bars, bars);
    }
}

} // verus!
