//! The core [`Signal`] trait and its composition combinators.
use vstd::prelude::*;

verus! {

/// An incremental, composable boolean condition.
///
/// A signal carries its own state and is advanced by [`Signal::update`]. Its
/// behaviour is described by three spec functions that every implementation
/// defines: `step` (the state after one more input), `holds` (the boolean the
/// state reports) and `cleared` (the state that [`Signal::reset`] produces).
/// An implementation outside Verus supplies these as ordinary functions.
pub trait Signal: Sized {
    /// The per-sample input.
    type Input;

    /// The boolean the signal currently reports.
    spec fn holds(&self) -> bool;

    /// The state after feeding one more input.
    spec fn step(&self, input: Self::Input) -> Self;

    /// The state that a reset produces.
    spec fn cleared(&self) -> Self;

    /// Resetting forgets the history: a step does not change what a reset
    /// leads to, and a reset state resets to itself.
    proof fn lemma_cleared_forgets_history(&self, input: Self::Input)
        ensures
            self.step(input).cleared() == self.cleared(),
            self.cleared().cleared() == self.cleared(),
    ;

    /// Feed the next sample and return the current boolean state.
    fn update(&mut self, input: Self::Input) -> (r: bool)
        ensures
            *final(self) == old(self).step(input),
            r == final(self).holds(),
    ;

    /// The most recent boolean state, without advancing.
    fn value(&self) -> (r: bool)
        ensures
            r == self.holds(),
    ;

    /// Reset all internal state.
    fn reset(&mut self)
        ensures
            *final(self) == old(self).cleared(),
    ;
}


/// The state a signal reaches from `s` after the inputs `inputs`, in order.
pub open spec fn run<S: Signal>(s: S, inputs: Seq<S::Input>) -> S
    decreases inputs.len(),
{
    if inputs.len() == 0 {
        s
    } else {
        run(s, inputs.drop_last()).step(inputs.last())
    }
}

/// Reset erases history: whatever inputs a signal has consumed, resetting it
/// yields the same state as resetting it before any input, and a reset state
/// replays any input sequence exactly as the reset original would.
pub proof fn lemma_reset_forgets_history<S: Signal>(s: S, inputs: Seq<S::Input>, replay: Seq<S::Input>)
    ensures
        run(s, inputs).cleared() == s.cleared(),
        run(run(s, inputs).cleared(), replay) == run(s.cleared(), replay),
        s.cleared().cleared() == s.cleared(),
    decreases inputs.len(),
{
    lemma_reset_idempotent(s);
    if inputs.len() == 0 {
        assert(run(s, inputs) == s);
    } else {
        let before = run(s, inputs.drop_last());
        lemma_reset_forgets_history(s, inputs.drop_last(), replay);
        before.lemma_cleared_forgets_history(inputs.last());
    }
}

proof fn lemma_reset_idempotent<S: Signal>(s: S)
    ensures
        s.cleared().cleared() == s.cleared(),
{
    let input: S::Input = arbitrary();
    s.lemma_cleared_forgets_history(input);
}

/// Combinator methods for building compound signals.
///
/// Binary combinators feed the *same* input to both sides, so they ask that
/// the input can be copied.
pub trait SignalExt: Signal {
    /// Logical AND of `self` and `rhs`.
    fn and<R>(self, rhs: R) -> (r: And<Self, R>) where
        R: Signal<Input = Self::Input>,
        Self::Input: Copy,

        ensures
            r == And::fresh(self, rhs),
    {
        And { lhs: self, rhs, value: false }
    }

    /// Logical OR of `self` and `rhs`.
    fn or<R>(self, rhs: R) -> (r: Or<Self, R>) where
        R: Signal<Input = Self::Input>,
        Self::Input: Copy,

        ensures
            r == Or::fresh(self, rhs),
    {
        Or { lhs: self, rhs, value: false }
    }

    /// Logical XOR of `self` and `rhs`.
    fn xor<R>(self, rhs: R) -> (r: Xor<Self, R>) where
        R: Signal<Input = Self::Input>,
        Self::Input: Copy,

        ensures
            r == Xor::fresh(self, rhs),
    {
        Xor { lhs: self, rhs, value: false }
    }

    /// Logical negation of `self`.
    fn not(self) -> (r: Not<Self>)
        ensures
            r == Not::fresh(self),
    {
        Not { inner: self, value: false }
    }

    /// Fires on the single step where `self`'s value toggles, in either
    /// direction. The first step never fires.
    fn changed(self) -> (r: Change<Self>)
        ensures
            r == Change::fresh(self),
    {
        Change { inner: self, prev: None, value: false }
    }
}

impl<S: Signal> SignalExt for S {

}

/// Logical AND of two signals. Created via [`SignalExt::and`].
#[derive(Debug, Clone)]
pub struct And<L, R> {
    lhs: L,
    rhs: R,
    value: bool,
}

impl<L, R> And<L, R> {
    /// The state `and` builds: both sides as given, reporting `false`.
    pub closed spec fn fresh(lhs: L, rhs: R) -> Self {
        And { lhs, rhs, value: false }
    }

    /// The left-hand signal.
    pub closed spec fn left(self) -> L {
        self.lhs
    }

    /// The right-hand signal.
    pub closed spec fn right(self) -> R {
        self.rhs
    }
}

impl<L, R> Signal for And<L, R> where L: Signal, R: Signal<Input = L::Input>, L::Input: Copy {
    type Input = L::Input;

    closed spec fn holds(&self) -> bool {
        self.value
    }

    closed spec fn step(&self, input: Self::Input) -> Self {
        let lhs = self.lhs.step(input);
        let rhs = self.rhs.step(input);
        And { lhs, rhs, value: lhs.holds() && rhs.holds() }
    }

    closed spec fn cleared(&self) -> Self {
        And { lhs: self.lhs.cleared(), rhs: self.rhs.cleared(), value: false }
    }

    proof fn lemma_cleared_forgets_history(&self, input: Self::Input) {
        self.lhs.lemma_cleared_forgets_history(input);
        self.rhs.lemma_cleared_forgets_history(input);
    }

    fn update(&mut self, input: Self::Input) -> (r: bool) {
        let lhs = self.lhs.update(input);
        let rhs = self.rhs.update(input);
        self.value = lhs && rhs;
        self.value
    }

    fn value(&self) -> (r: bool) {
        self.value
    }

    fn reset(&mut self)
        ensures
            final(self).left() == old(self).left().cleared(),
            final(self).right() == old(self).right().cleared(),
            !final(self).holds(),
    {
        self.lhs.reset();
        self.rhs.reset();
        self.value = false;
    }
}

/// Logical OR of two signals. Created via [`SignalExt::or`].
#[derive(Debug, Clone)]
pub struct Or<L, R> {
    lhs: L,
    rhs: R,
    value: bool,
}

impl<L, R> Or<L, R> {
    /// The state `or` builds: both sides as given, reporting `false`.
    pub closed spec fn fresh(lhs: L, rhs: R) -> Self {
        Or { lhs, rhs, value: false }
    }

    /// The left-hand signal.
    pub closed spec fn left(self) -> L {
        self.lhs
    }

    /// The right-hand signal.
    pub closed spec fn right(self) -> R {
        self.rhs
    }
}

impl<L, R> Signal for Or<L, R> where L: Signal, R: Signal<Input = L::Input>, L::Input: Copy {
    type Input = L::Input;

    closed spec fn holds(&self) -> bool {
        self.value
    }

    closed spec fn step(&self, input: Self::Input) -> Self {
        let lhs = self.lhs.step(input);
        let rhs = self.rhs.step(input);
        Or { lhs, rhs, value: lhs.holds() || rhs.holds() }
    }

    closed spec fn cleared(&self) -> Self {
        Or { lhs: self.lhs.cleared(), rhs: self.rhs.cleared(), value: false }
    }

    proof fn lemma_cleared_forgets_history(&self, input: Self::Input) {
        self.lhs.lemma_cleared_forgets_history(input);
        self.rhs.lemma_cleared_forgets_history(input);
    }

    fn update(&mut self, input: Self::Input) -> (r: bool) {
        let lhs = self.lhs.update(input);
        let rhs = self.rhs.update(input);
        self.value = lhs || rhs;
        self.value
    }

    fn value(&self) -> (r: bool) {
        self.value
    }

    fn reset(&mut self)
        ensures
            final(self).left() == old(self).left().cleared(),
            final(self).right() == old(self).right().cleared(),
            !final(self).holds(),
    {
        self.lhs.reset();
        self.rhs.reset();
        self.value = false;
    }
}

/// Logical XOR of two signals. Created via [`SignalExt::xor`].
#[derive(Debug, Clone)]
pub struct Xor<L, R> {
    lhs: L,
    rhs: R,
    value: bool,
}

impl<L, R> Xor<L, R> {
    /// The state `xor` builds: both sides as given, reporting `false`.
    pub closed spec fn fresh(lhs: L, rhs: R) -> Self {
        Xor { lhs, rhs, value: false }
    }

    /// The left-hand signal.
    pub closed spec fn left(self) -> L {
        self.lhs
    }

    /// The right-hand signal.
    pub closed spec fn right(self) -> R {
        self.rhs
    }
}

impl<L, R> Signal for Xor<L, R> where L: Signal, R: Signal<Input = L::Input>, L::Input: Copy {
    type Input = L::Input;

    closed spec fn holds(&self) -> bool {
        self.value
    }

    closed spec fn step(&self, input: Self::Input) -> Self {
        let lhs = self.lhs.step(input);
        let rhs = self.rhs.step(input);
        Xor { lhs, rhs, value: lhs.holds() != rhs.holds() }
    }

    closed spec fn cleared(&self) -> Self {
        Xor { lhs: self.lhs.cleared(), rhs: self.rhs.cleared(), value: false }
    }

    proof fn lemma_cleared_forgets_history(&self, input: Self::Input) {
        self.lhs.lemma_cleared_forgets_history(input);
        self.rhs.lemma_cleared_forgets_history(input);
    }

    fn update(&mut self, input: Self::Input) -> (r: bool) {
        let lhs = self.lhs.update(input);
        let rhs = self.rhs.update(input);
        self.value = lhs ^ rhs;
        self.value
    }

    fn value(&self) -> (r: bool) {
        self.value
    }

    fn reset(&mut self)
        ensures
            final(self).left() == old(self).left().cleared(),
            final(self).right() == old(self).right().cleared(),
            !final(self).holds(),
    {
        self.lhs.reset();
        self.rhs.reset();
        self.value = false;
    }
}

/// Logical negation of a signal. Created via [`SignalExt::not`].
#[derive(Debug, Clone)]
pub struct Not<S> {
    inner: S,
    value: bool,
}

impl<S> Not<S> {
    /// The state `not` builds: the inner signal as given, reporting `false`.
    pub closed spec fn fresh(inner: S) -> Self {
        Not { inner, value: false }
    }

    /// The negated signal.
    pub closed spec fn inner(self) -> S {
        self.inner
    }
}

impl<S: Signal> Signal for Not<S> {
    type Input = S::Input;

    closed spec fn holds(&self) -> bool {
        self.value
    }

    closed spec fn step(&self, input: Self::Input) -> Self {
        let inner = self.inner.step(input);
        Not { inner, value: !inner.holds() }
    }

    closed spec fn cleared(&self) -> Self {
        Not { inner: self.inner.cleared(), value: false }
    }

    proof fn lemma_cleared_forgets_history(&self, input: Self::Input) {
        self.inner.lemma_cleared_forgets_history(input);
    }

    fn update(&mut self, input: Self::Input) -> (r: bool) {
        let now = self.inner.update(input);
        self.value = !now;
        self.value
    }

    fn value(&self) -> (r: bool) {
        self.value
    }

    fn reset(&mut self)
        ensures
            final(self).inner() == old(self).inner().cleared(),
            !final(self).holds(),
    {
        self.inner.reset();
        self.value = false;
    }
}

/// Toggle (change) detector. Created via [`SignalExt::changed`].
///
/// Fires on the single step where the inner signal's value differs from the
/// previous step, in either direction. The first step never fires (no prior
/// value to compare against).
#[derive(Debug, Clone)]
pub struct Change<S> {
    inner: S,
    prev: Option<bool>,
    value: bool,
}

impl<S> Change<S> {
    /// The state `changed` builds: no prior value, reporting `false`.
    pub closed spec fn fresh(inner: S) -> Self {
        Change { inner, prev: None, value: false }
    }

    /// The watched signal.
    pub closed spec fn inner(self) -> S {
        self.inner
    }

    /// The watched signal's value at the previous step, if there was one.
    pub closed spec fn previous(self) -> Option<bool> {
        self.prev
    }
}

impl<S: Signal> Signal for Change<S> {
    type Input = S::Input;

    closed spec fn holds(&self) -> bool {
        self.value
    }

    closed spec fn step(&self, input: Self::Input) -> Self {
        let inner = self.inner.step(input);
        let now = inner.holds();
        let value = match self.prev {
            Some(prev) => now != prev,
            None => false,
        };
        Change { inner, prev: Some(now), value }
    }

    closed spec fn cleared(&self) -> Self {
        Change { inner: self.inner.cleared(), prev: None, value: false }
    }

    proof fn lemma_cleared_forgets_history(&self, input: Self::Input) {
        self.inner.lemma_cleared_forgets_history(input);
    }

    fn update(&mut self, input: Self::Input) -> (r: bool) {
        let now = self.inner.update(input);
        self.value = match self.prev {
            Some(prev) => now != prev,
            None => false,
        };
        self.prev = Some(now);
        self.value
    }

    fn value(&self) -> (r: bool) {
        self.value
    }

    fn reset(&mut self)
        ensures
            final(self).inner() == old(self).inner().cleared(),
            final(self).previous() is None,
            !final(self).holds(),
    {
        self.inner.reset();
        self.prev = None;
        self.value = false;
    }
}


/// After any non-empty run, `And` reports true exactly when both sides hold after the
/// same run; each side evolves exactly as it would on its own.
pub proof fn lemma_and_run<L, R>(lhs: L, rhs: R, inputs: Seq<L::Input>)
    where L: Signal, R: Signal<Input = L::Input>, L::Input: Copy,
    ensures
        run(And::fresh(lhs, rhs), inputs).left() == run(lhs, inputs),
        run(And::fresh(lhs, rhs), inputs).right() == run(rhs, inputs),
        run(And::fresh(lhs, rhs), inputs).holds() == (inputs.len() > 0 && (run(lhs, inputs).holds()
            && run(rhs, inputs).holds())),
    decreases inputs.len(),
{
    if inputs.len() > 0 {
        lemma_and_run(lhs, rhs, inputs.drop_last());
    }
}

/// After any non-empty run, `Or` reports true exactly when either side holds after the
/// same run; each side evolves exactly as it would on its own.
pub proof fn lemma_or_run<L, R>(lhs: L, rhs: R, inputs: Seq<L::Input>)
    where L: Signal, R: Signal<Input = L::Input>, L::Input: Copy,
    ensures
        run(Or::fresh(lhs, rhs), inputs).left() == run(lhs, inputs),
        run(Or::fresh(lhs, rhs), inputs).right() == run(rhs, inputs),
        run(Or::fresh(lhs, rhs), inputs).holds() == (inputs.len() > 0 && (run(lhs, inputs).holds()
            || run(rhs, inputs).holds())),
    decreases inputs.len(),
{
    if inputs.len() > 0 {
        lemma_or_run(lhs, rhs, inputs.drop_last());
    }
}

/// After any non-empty run, `Xor` reports true exactly when exactly one side holds after the
/// same run; each side evolves exactly as it would on its own.
pub proof fn lemma_xor_run<L, R>(lhs: L, rhs: R, inputs: Seq<L::Input>)
    where L: Signal, R: Signal<Input = L::Input>, L::Input: Copy,
    ensures
        run(Xor::fresh(lhs, rhs), inputs).left() == run(lhs, inputs),
        run(Xor::fresh(lhs, rhs), inputs).right() == run(rhs, inputs),
        run(Xor::fresh(lhs, rhs), inputs).holds() == (inputs.len() > 0 && (run(lhs, inputs).holds()
            != run(rhs, inputs).holds())),
    decreases inputs.len(),
{
    if inputs.len() > 0 {
        lemma_xor_run(lhs, rhs, inputs.drop_last());
    }
}

/// After any non-empty run, `Not` reports the negation of what its inner
/// signal reports after the same run.
pub proof fn lemma_not_run<S: Signal>(inner: S, inputs: Seq<S::Input>)
    ensures
        run(Not::fresh(inner), inputs).inner() == run(inner, inputs),
        run(Not::fresh(inner), inputs).holds() == (inputs.len() > 0 && !run(inner, inputs).holds()),
    decreases inputs.len(),
{
    if inputs.len() > 0 {
        lemma_not_run(inner, inputs.drop_last());
    }
}

/// `Change` fires exactly on a step where the inner signal's value differs
/// from its value one step earlier; it never fires on the first step.
pub proof fn lemma_change_run<S: Signal>(inner: S, inputs: Seq<S::Input>)
    ensures
        run(Change::fresh(inner), inputs).inner() == run(inner, inputs),
        run(Change::fresh(inner), inputs).previous() == (if inputs.len() == 0 {
            None
        } else {
            Some(run(inner, inputs).holds())
        }),
        run(Change::fresh(inner), inputs).holds() == (inputs.len() >= 2 && run(inner, inputs).holds()
            != run(inner, inputs.drop_last()).holds()),
    decreases inputs.len(),
{
    if inputs.len() > 0 {
        lemma_change_run(inner, inputs.drop_last());
    }
}

/// A crossover is "the comparison holds and it just changed": built as
/// `s.and(s.changed())` from two copies of one comparison `s`, it fires exactly
/// on a step where `s` holds after having not held one step earlier.
pub proof fn lemma_rising_edge_run<S: Signal>(s: S, inputs: Seq<S::Input>) where S::Input: Copy
    ensures
        run(And::fresh(s, Change::fresh(s)), inputs).holds() == (inputs.len() >= 2 && run(
            s,
            inputs,
        ).holds() && !run(s, inputs.drop_last()).holds()),
{
    lemma_and_run(s, Change::fresh(s), inputs);
    lemma_change_run(s, inputs);
}

/// What `And` reports and holds: as built, both sides as given and `false`;
/// reset, both sides reset and `false`. Built from sides that are in their
/// reset state, it is in its reset state.
pub proof fn lemma_and_fresh_and_cleared<L, R>(lhs: L, rhs: R, x: And<L, R>)
    where L: Signal, R: Signal<Input = L::Input>, L::Input: Copy,
    ensures
        And::fresh(lhs, rhs).left() == lhs,
        And::fresh(lhs, rhs).right() == rhs,
        !And::fresh(lhs, rhs).holds(),
        x.cleared() == And::fresh(x.left().cleared(), x.right().cleared()),
        lhs.cleared() == lhs && rhs.cleared() == rhs ==> And::fresh(lhs, rhs).cleared() == And::fresh(
            lhs,
            rhs,
        ),
{
}

/// What `Or` reports and holds: as built, both sides as given and `false`;
/// reset, both sides reset and `false`. Built from sides that are in their
/// reset state, it is in its reset state.
pub proof fn lemma_or_fresh_and_cleared<L, R>(lhs: L, rhs: R, x: Or<L, R>)
    where L: Signal, R: Signal<Input = L::Input>, L::Input: Copy,
    ensures
        Or::fresh(lhs, rhs).left() == lhs,
        Or::fresh(lhs, rhs).right() == rhs,
        !Or::fresh(lhs, rhs).holds(),
        x.cleared() == Or::fresh(x.left().cleared(), x.right().cleared()),
        lhs.cleared() == lhs && rhs.cleared() == rhs ==> Or::fresh(lhs, rhs).cleared() == Or::fresh(
            lhs,
            rhs,
        ),
{
}

/// What `Xor` reports and holds: as built, both sides as given and `false`;
/// reset, both sides reset and `false`. Built from sides that are in their
/// reset state, it is in its reset state.
pub proof fn lemma_xor_fresh_and_cleared<L, R>(lhs: L, rhs: R, x: Xor<L, R>)
    where L: Signal, R: Signal<Input = L::Input>, L::Input: Copy,
    ensures
        Xor::fresh(lhs, rhs).left() == lhs,
        Xor::fresh(lhs, rhs).right() == rhs,
        !Xor::fresh(lhs, rhs).holds(),
        x.cleared() == Xor::fresh(x.left().cleared(), x.right().cleared()),
        lhs.cleared() == lhs && rhs.cleared() == rhs ==> Xor::fresh(lhs, rhs).cleared() == Xor::fresh(
            lhs,
            rhs,
        ),
{
}

/// What `Not` reports and holds: as built, the inner signal as given and
/// `false`; reset, the inner signal reset and `false`. Built from a signal in
/// its reset state, it is in its reset state.
pub proof fn lemma_not_fresh_and_cleared<S: Signal>(inner: S, x: Not<S>)
    ensures
        Not::fresh(inner).inner() == inner,
        !Not::fresh(inner).holds(),
        x.cleared() == Not::fresh(x.inner().cleared()),
        inner.cleared() == inner ==> Not::fresh(inner).cleared() == Not::fresh(inner),
{
}

/// What `Change` reports and holds: as built, the inner signal as given, no
/// previous value and `false`; reset, the inner signal reset, no previous
/// value and `false` — so the edge law of [`lemma_change_run`] holds again from
/// a reset, and the first step after a reset never fires. Built from a signal
/// in its reset state, it is in its reset state.
pub proof fn lemma_change_fresh_and_cleared<S: Signal>(inner: S, x: Change<S>, input: S::Input)
    ensures
        Change::fresh(inner).inner() == inner,
        Change::fresh(inner).previous() is None,
        !Change::fresh(inner).holds(),
        x.cleared() == Change::fresh(x.inner().cleared()),
        !x.cleared().step(input).holds(),
        inner.cleared() == inner ==> Change::fresh(inner).cleared() == Change::fresh(inner),
{
}

/// A signal that starts in its reset state comes back to exactly that state
/// when reset after any inputs; so it then replays any inputs exactly as it
/// did from the start.
pub proof fn lemma_reset_restores<S: Signal>(s: S, inputs: Seq<S::Input>, replay: Seq<S::Input>)
    requires
        s.cleared() == s,
    ensures
        run(s, inputs).cleared() == s,
        run(run(s, inputs).cleared(), replay) == run(s, replay),
{
    lemma_reset_forgets_history(s, inputs, replay);
}

} // verus!
