//! A catalogue of classical single-asset strategies.
//!
//! Every strategy advances **all** of its signals on every bar (never
//! short-circuiting, so no source desyncs from the price stream) and then
//! decides what to ask of the wallet. Position sizes are all-in. Two flavours of
//! position management appear:
//!
//! * **long/flat** — go all-in long on an entry edge, close on an exit edge;
//! * **long/short** (always-in) — reverse to the other side with a single
//!   all-in order.
//!
//! The decision of each flavour is a rule of this module, from the signals'
//! values and the current [`Exposure`] to an optional [`Order`]. Performing
//! the order, and classifying a position amount into an [`Exposure`], is the
//! wallet's side of the exchange.
use vstd::prelude::*;

pub mod composite;
pub mod mean_reversion;
pub mod momentum;
pub mod trend;
pub mod volume;

verus! {

/// The direction of an order.
#[derive(Debug, Clone, Copy, PartialEq, Eq, Structural)]
pub enum Side {
    Buy,
    Sell,
}

/// Where the current position stands, judged with the comparison tolerance:
/// flat when its amount is within the tolerance of zero, long above it, short
/// below its negation, and `Undetermined` when the amount compares to none of
/// these (an amount that is not a number).
#[derive(Debug, Clone, Copy, PartialEq, Eq, Structural)]
pub enum Exposure {
    Flat,
    Long,
    Short,
    Undetermined,
}

impl Exposure {
    /// Whether the position is effectively flat.
    pub open spec fn flat(self) -> bool {
        self is Flat
    }

    /// Whether the position is meaningfully long.
    pub open spec fn long(self) -> bool {
        self is Long
    }

    /// Whether the position is meaningfully short.
    pub open spec fn short(self) -> bool {
        self is Short
    }

    /// Whether the position is effectively flat.
    pub fn is_flat(self) -> (r: bool)
        ensures
            r == self.flat(),
    {
        matches!(self, Exposure::Flat)
    }

    /// Whether the position is meaningfully long.
    pub fn is_long(self) -> (r: bool)
        ensures
            r == self.long(),
    {
        matches!(self, Exposure::Long)
    }

    /// Whether the position is meaningfully short.
    pub fn is_short(self) -> (r: bool)
        ensures
            r == self.short(),
    {
        matches!(self, Exposure::Short)
    }
}

/// What a strategy asks of the wallet on one bar.
#[derive(Debug, Clone, Copy, PartialEq, Eq, Structural)]
pub enum Order {
    /// Hold a position on the given side worth all of the equity, replacing
    /// whatever position is held (one order reverses and re-sizes).
    AllIn(Side),
    /// Close the position.
    Close,
}

/// The always-in long/short rule: go all-in long on `up` unless already long,
/// otherwise all-in short on `down` unless already short.
pub open spec fn reversal_rule(up: bool, down: bool, exposure: Exposure) -> Option<Order> {
    if up && !exposure.long() {
        Some(Order::AllIn(Side::Buy))
    } else if down && !exposure.short() {
        Some(Order::AllIn(Side::Sell))
    } else {
        None
    }
}

/// The long/flat rule: go all-in long on `enter` while flat, otherwise close
/// on `exit` while not flat.
pub open spec fn entry_exit_rule(enter: bool, exit: bool, exposure: Exposure) -> Option<Order> {
    if enter && exposure.flat() {
        Some(Order::AllIn(Side::Buy))
    } else if exit && !exposure.flat() {
        Some(Order::Close)
    } else {
        None
    }
}

/// The holding rule of a long/flat strategy driven by one condition: go
/// all-in long while the condition holds and the position is flat, close while
/// it does not hold and the position is not flat.
pub open spec fn holding_rule(condition: bool, exposure: Exposure) -> Option<Order> {
    entry_exit_rule(condition, !condition, exposure)
}

/// Applies [`holding_rule`].
pub fn holding_order(condition: bool, exposure: Exposure) -> (r: Option<Order>)
    ensures
        r == holding_rule(condition, exposure),
{
    entry_exit_order(condition, !condition, exposure)
}

/// Applies [`reversal_rule`].
pub fn reversal_order(up: bool, down: bool, exposure: Exposure) -> (r: Option<Order>)
    ensures
        r == reversal_rule(up, down, exposure),
{
    if up && !exposure.is_long() {
        Some(Order::AllIn(Side::Buy))
    } else if down && !exposure.is_short() {
        Some(Order::AllIn(Side::Sell))
    } else {
        None
    }
}

/// Applies [`entry_exit_rule`].
pub fn entry_exit_order(enter: bool, exit: bool, exposure: Exposure) -> (r: Option<Order>)
    ensures
        r == entry_exit_rule(enter, exit, exposure),
{
    if enter && exposure.is_flat() {
        Some(Order::AllIn(Side::Buy))
    } else if exit && !exposure.is_flat() {
        Some(Order::Close)
    } else {
        None
    }
}

/// An always-in strategy never asks to go long while long nor short while
/// short, never closes, and answers every raised edge that its position does
/// not already follow.
pub proof fn lemma_reversal_rule(up: bool, down: bool, exposure: Exposure)
    ensures
        reversal_rule(up, down, exposure) != Some(Order::Close),
        reversal_rule(up, down, exposure) == Some(Order::AllIn(Side::Buy)) ==> up
            && !exposure.long(),
        reversal_rule(up, down, exposure) == Some(Order::AllIn(Side::Sell)) ==> down
            && !exposure.short(),
        reversal_rule(up, down, exposure) is None ==> (!up || exposure.long()) && (!down
            || exposure.short()),
        up && !exposure.long() ==> reversal_rule(up, down, exposure) == Some(
            Order::AllIn(Side::Buy),
        ),
        down && !exposure.short() && !(up && !exposure.long()) ==> reversal_rule(
            up,
            down,
            exposure,
        ) == Some(Order::AllIn(Side::Sell)),
{
}

/// A long/flat strategy only ever enters long from flat and only ever closes
/// a position that is not flat; it never goes short.
pub proof fn lemma_entry_exit_rule(enter: bool, exit: bool, exposure: Exposure)
    ensures
        enter && exposure.flat() ==> entry_exit_rule(enter, exit, exposure) == Some(
            Order::AllIn(Side::Buy),
        ),
        exit && !exposure.flat() ==> entry_exit_rule(enter, exit, exposure) == Some(Order::Close),
        !(enter && exposure.flat()) && !(exit && !exposure.flat()) ==> entry_exit_rule(
            enter,
            exit,
            exposure,
        ) is None,
        entry_exit_rule(enter, exit, exposure) != Some(Order::AllIn(Side::Sell)),
        entry_exit_rule(enter, exit, exposure) == Some(Order::AllIn(Side::Buy)) ==> enter
            && exposure.flat(),
        entry_exit_rule(enter, exit, exposure) == Some(Order::Close) ==> exit
            && !exposure.flat(),
{
}

} // verus!
