//! Momentum strategies: trade the sign of a rate-of-change or oscillator.
//!
//! Both strategies here read an indicator value (the close's rate of change,
//! or its RSI) against a reference level; the indicator itself is computed by
//! the caller, which hands over how the latest value compares with the level.
use vstd::prelude::*;

use super::{reversal_order, reversal_rule, Exposure, Order, Side};

verus! {

/// How an indicator value compares with a reference level: strictly above,
/// strictly below, or neither (equal to it, or not comparable).
#[derive(Debug, Clone, Copy, PartialEq, Eq, Structural)]
pub enum Reading {
    Above,
    Below,
    Neither,
}

/// The momentum rule: once the indicator is ready, reverse long while it
/// reads above the level and short while it reads below.
pub open spec fn momentum_rule(reading: Option<Reading>, exposure: Exposure) -> Option<Order> {
    match reading {
        Some(r) => reversal_rule(r is Above, r is Below, exposure),
        None => None,
    }
}

/// Momentum is always in the market on the side the reading points to: a
/// reading above the level reverses or enters long unless already long, one
/// below reverses or enters short unless already short; otherwise, and while
/// the indicator is not ready, nothing is ordered.
pub proof fn lemma_momentum_rule(reading: Option<Reading>, exposure: Exposure)
    ensures
        !exposure.long() ==> momentum_rule(Some(Reading::Above), exposure) == Some(
            Order::AllIn(Side::Buy),
        ),
        exposure.long() ==> momentum_rule(Some(Reading::Above), exposure) is None,
        !exposure.short() ==> momentum_rule(Some(Reading::Below), exposure) == Some(
            Order::AllIn(Side::Sell),
        ),
        exposure.short() ==> momentum_rule(Some(Reading::Below), exposure) is None,
        momentum_rule(Some(Reading::Neither), exposure) is None,
        momentum_rule(None, exposure) is None,
{
}

fn momentum_order(reading: Option<Reading>, exposure: Exposure) -> (r: Option<Order>)
    ensures
        r == momentum_rule(reading, exposure),
{
    match reading {
        Some(r) => reversal_order(
            matches!(r, Reading::Above),
            matches!(r, Reading::Below),
            exposure,
        ),
        None => None,
    }
}

/// Rate-of-change momentum, always-in long/short.
///
/// Long while the `period`-bar percentage change of the close is positive,
/// short while it is negative — the simplest time-series momentum rule.
pub struct MomentumRoc<Sym> {
    symbol: Sym,
    period: usize,
}

impl<Sym> MomentumRoc<Sym> {
    /// The traded symbol.
    pub closed spec fn traded(self) -> Sym {
        self.symbol
    }

    /// The rate-of-change lookback, in bars.
    pub closed spec fn lookback(self) -> usize {
        self.period
    }

    /// A rate-of-change momentum strategy on `symbol` over `period` bars.
    pub fn new(symbol: Sym, period: usize) -> (r: Self)
        ensures
            r.traded() == symbol,
            r.lookback() == period,
    {
        Self { symbol, period }
    }

    /// The traded symbol.
    pub fn symbol(&self) -> (r: &Sym)
        ensures
            *r == self.traded(),
    {
        &self.symbol
    }

    /// The rate-of-change lookback, in bars.
    pub fn period(&self) -> (r: usize)
        ensures
            r == self.lookback(),
    {
        self.period
    }

    /// The order for a bar, given how the rate of change compares with zero
    /// (`None` while it is not yet available) and the current exposure.
    pub fn evaluate(&self, roc: Option<Reading>, exposure: Exposure) -> (r: Option<Order>)
        ensures
            r == momentum_rule(roc, exposure),
    {
        momentum_order(roc, exposure)
    }
}

/// RSI midline momentum, always-in long/short.
///
/// Reads RSI as a trend gauge rather than a reversion one: long while RSI is
/// above 50, short while below — flipping as it crosses the midline.
pub struct RsiMidline<Sym> {
    symbol: Sym,
    period: usize,
}

impl<Sym> RsiMidline<Sym> {
    /// The traded symbol.
    pub closed spec fn traded(self) -> Sym {
        self.symbol
    }

    /// The RSI period.
    pub closed spec fn lookback(self) -> usize {
        self.period
    }

    /// An RSI midline strategy on `symbol` with an RSI over `period` bars.
    pub fn new(symbol: Sym, period: usize) -> (r: Self)
        ensures
            r.traded() == symbol,
            r.lookback() == period,
    {
        Self { symbol, period }
    }

    /// The traded symbol.
    pub fn symbol(&self) -> (r: &Sym)
        ensures
            *r == self.traded(),
    {
        &self.symbol
    }

    /// The RSI period.
    pub fn period(&self) -> (r: usize)
        ensures
            r == self.lookback(),
    {
        self.period
    }

    /// The order for a bar, given how the RSI compares with 50 (`None` while
    /// it is not yet available) and the current exposure.
    pub fn evaluate(&self, rsi: Option<Reading>, exposure: Exposure) -> (r: Option<Order>)
        ensures
            r == momentum_rule(rsi, exposure),
    {
        momentum_order(rsi, exposure)
    }
}

} // verus!
