use arcana::signal::{Signal, SignalExt};
use arcana::strategies::composite::{AdxTrendFilter, KeltnerBreakout};
use arcana::strategies::mean_reversion::{ZScore, ZScoreReversion};
use arcana::strategies::momentum::{MomentumRoc, Reading, RsiMidline};
use arcana::strategies::trend::TripleMa;
use arcana::strategies::volume::ObvTrend;
use arcana::strategies::Exposure::{Flat, Long, Short, Undetermined};
use arcana::strategies::{entry_exit_order, reversal_order, Exposure, Order, Side};

/// Emits a scripted sequence of booleans, one per step.
#[derive(Clone)]
struct Script {
    values: Vec<bool>,
    idx: usize,
}

impl Script {
    fn new(values: &[bool]) -> Self {
        Script { values: values.to_vec(), idx: 0 }
    }
}

impl Signal for Script {
    type Input = ();
    fn holds(&self) -> bool {
        self.idx > 0 && self.values[self.idx - 1]
    }
    fn step(&self, _: ()) -> Self {
        Script { values: self.values.clone(), idx: self.idx + 1 }
    }
    fn cleared(&self) -> Self {
        Script { values: self.values.clone(), idx: 0 }
    }
    fn lemma_cleared_forgets_history(&self, _: ()) {}
    fn update(&mut self, _: ()) -> bool {
        self.idx += 1;
        self.values[self.idx - 1]
    }
    fn value(&self) -> bool {
        self.holds()
    }
    fn reset(&mut self) {
        self.idx = 0;
    }
}

const A: [bool; 4] = [false, true, true, false];
const B: [bool; 4] = [true, true, false, false];

fn outputs<S: Signal<Input = ()>>(mut s: S, n: usize) -> Vec<bool> {
    (0..n).map(|_| s.update(())).collect()
}

#[test]
fn combinators_follow_their_truth_tables() {
    let and = outputs(Script::new(&A).and(Script::new(&B)), 4);
    let or = outputs(Script::new(&A).or(Script::new(&B)), 4);
    let xor = outputs(Script::new(&A).xor(Script::new(&B)), 4);
    let not = outputs(Script::new(&A).not(), 4);
    assert_eq!(and, vec![false, true, false, false]);
    assert_eq!(or, vec![true, true, true, false]);
    assert_eq!(xor, vec![true, false, true, false]);
    assert_eq!(not, vec![true, false, false, true]);
}

#[test]
fn combinators_report_false_before_the_first_step() {
    assert!(!Script::new(&[true]).not().not().value());
    assert!(!Script::new(&[true]).and(Script::new(&[true])).value());
    let mut s = Script::new(&[true]).or(Script::new(&[true]));
    assert!(s.update(()));
    assert!(s.value());
}

#[test]
fn crossover_fires_only_where_the_comparison_becomes_true() {
    let cond = [false, true, true, false, true];
    let cross = Script::new(&cond).and(Script::new(&cond).changed());
    assert_eq!(outputs(cross, 5), vec![false, true, false, false, true]);
    // A comparison that is true from the very first step is no crossover.
    let always = Script::new(&[true, true]).and(Script::new(&[true, true]).changed());
    assert_eq!(outputs(always, 2), vec![false, false]);
}

#[test]
fn reset_replays_identically() {
    let mut s = Script::new(&A).xor(Script::new(&B)).changed();
    let first: Vec<bool> = (0..4).map(|_| s.update(())).collect();
    s.reset();
    assert!(!s.value());
    let second: Vec<bool> = (0..4).map(|_| s.update(())).collect();
    assert_eq!(first, second);
    assert_eq!(first, vec![false, true, true, true]);
}

#[test]
fn reversal_rule_follows_the_edges() {
    assert_eq!(reversal_order(true, false, Flat), Some(Order::AllIn(Side::Buy)));
    assert_eq!(reversal_order(true, false, Short), Some(Order::AllIn(Side::Buy)));
    assert_eq!(reversal_order(true, false, Long), None);
    assert_eq!(reversal_order(false, true, Long), Some(Order::AllIn(Side::Sell)));
    assert_eq!(reversal_order(true, true, Long), Some(Order::AllIn(Side::Sell)));
    assert_eq!(reversal_order(false, true, Short), None);
    assert_eq!(reversal_order(false, false, Undetermined), None);
    assert_eq!(reversal_order(true, false, Undetermined), Some(Order::AllIn(Side::Buy)));
}

#[test]
fn entry_exit_rule_enters_from_flat_and_closes_otherwise() {
    assert_eq!(entry_exit_order(true, false, Flat), Some(Order::AllIn(Side::Buy)));
    assert_eq!(entry_exit_order(true, false, Long), None);
    assert_eq!(entry_exit_order(false, true, Long), Some(Order::Close));
    assert_eq!(entry_exit_order(true, true, Short), Some(Order::Close));
    assert_eq!(entry_exit_order(false, true, Flat), None);
    assert_eq!(entry_exit_order(false, true, Undetermined), Some(Order::Close));
}

#[test]
fn momentum_strategies_trade_the_sign() {
    let roc = MomentumRoc::new("X", 10);
    assert_eq!(*roc.symbol(), "X");
    assert_eq!(roc.period(), 10);
    assert_eq!(roc.evaluate(None, Exposure::Flat), None);
    assert_eq!(roc.evaluate(Some(Reading::Above), Exposure::Flat), Some(Order::AllIn(Side::Buy)));
    assert_eq!(roc.evaluate(Some(Reading::Above), Exposure::Long), None);
    assert_eq!(roc.evaluate(Some(Reading::Below), Exposure::Long), Some(Order::AllIn(Side::Sell)));
    assert_eq!(roc.evaluate(Some(Reading::Neither), Exposure::Long), None);
    let rsi = RsiMidline::new("Y", 14);
    assert_eq!(rsi.period(), 14);
    assert_eq!(rsi.evaluate(Some(Reading::Below), Exposure::Short), None);
    assert_eq!(rsi.evaluate(Some(Reading::Below), Exposure::Flat), Some(Order::AllIn(Side::Sell)));
}

#[test]
fn zscore_reversion_enters_extremes_and_exits_at_the_mean() {
    let z = ZScoreReversion::new("X", 20);
    assert_eq!(z.period(), 20);
    let cheap = ZScore { cheap: true, rich: false, at_or_above_mean: false, at_or_below_mean: true };
    let rich = ZScore { cheap: false, rich: true, at_or_above_mean: true, at_or_below_mean: false };
    let above = ZScore { cheap: false, rich: false, at_or_above_mean: true, at_or_below_mean: false };
    assert_eq!(z.trade(Some(cheap), Exposure::Flat), Some(Order::AllIn(Side::Buy)));
    assert_eq!(z.trade(Some(cheap), Exposure::Long), None);
    assert_eq!(z.trade(Some(rich), Exposure::Long), Some(Order::AllIn(Side::Sell)));
    assert_eq!(z.trade(Some(above), Exposure::Long), Some(Order::Close));
    assert_eq!(z.trade(Some(above), Exposure::Short), None);
    assert_eq!(z.trade(Some(cheap), Exposure::Short), Some(Order::AllIn(Side::Buy)));
    assert_eq!(z.trade(None, Exposure::Long), None);
}

#[test]
fn triple_ma_enters_all_in_while_aligned_and_closes_on_break() {
    let mut s = TripleMa::new("X", Script::new(&[true, true, true, false]), Script::new(&[false, true, true, true]));
    assert_eq!(s.evaluate((), Exposure::Flat), None);
    assert_eq!(s.evaluate((), Exposure::Flat), Some(Order::AllIn(Side::Buy)));
    assert_eq!(s.evaluate((), Exposure::Long), None);
    assert_eq!(s.evaluate((), Exposure::Long), Some(Order::Close));
}

#[test]
fn trade_reads_the_latest_update() {
    let mut s = AdxTrendFilter::new(
        "X",
        Script::new(&[false, true]),
        Script::new(&[true, true]),
        Script::new(&[false, false]),
    );
    s.update(());
    assert_eq!(s.trade(Exposure::Flat), None);
    s.update(());
    assert_eq!(s.trade(Exposure::Flat), Some(Order::AllIn(Side::Buy)));
    assert_eq!(s.trade(Exposure::Flat), Some(Order::AllIn(Side::Buy)));
    s.reset();
    assert_eq!(s.trade(Exposure::Flat), None);

    let mut k = KeltnerBreakout::new("X", Script::new(&[false]), Script::new(&[true]));
    k.update(());
    assert_eq!(k.trade(Exposure::Long), Some(Order::AllIn(Side::Sell)));

    let mut o = ObvTrend::new("X", Script::new(&[false, true]));
    o.update(());
    assert_eq!(o.trade(Exposure::Long), Some(Order::Close));
    assert_eq!(o.trade(Exposure::Flat), None);
    o.update(());
    assert_eq!(o.trade(Exposure::Flat), Some(Order::AllIn(Side::Buy)));
}
