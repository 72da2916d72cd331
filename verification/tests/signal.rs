use arcana::signal::{Signal, SignalExt};

/// Emits a scripted sequence of booleans, for exercising combinators.
struct Script {
    values: Vec<bool>,
    idx: usize,
}

impl Script {
    fn new(values: &[bool]) -> Self {
        Self {
            values: values.to_vec(),
            idx: 0,
        }
    }
}

impl Signal for Script {
    type Input = ();
    // The model of the signal, which a verified implementation proves its
    // methods against; plain Rust supplies it as ordinary functions.
    fn holds(&self) -> bool {
        self.idx > 0 && self.values[self.idx - 1]
    }
    fn step(&self, _: ()) -> Self {
        Script {
            values: self.values.clone(),
            idx: self.idx + 1,
        }
    }
    fn cleared(&self) -> Self {
        Script {
            values: self.values.clone(),
            idx: 0,
        }
    }
    fn lemma_cleared_forgets_history(&self, _: ()) {}
    fn update(&mut self, _: ()) -> bool {
        let v = self.values[self.idx];
        self.idx += 1;
        v
    }
    fn value(&self) -> bool {
        self.values[self.idx.saturating_sub(1)]
    }
    fn reset(&mut self) {
        self.idx = 0;
    }
}

struct Const(bool);

impl Signal for Const {
    type Input = ();
    fn holds(&self) -> bool {
        self.0
    }
    fn step(&self, _: ()) -> Self {
        Const(self.0)
    }
    fn cleared(&self) -> Self {
        Const(self.0)
    }
    fn lemma_cleared_forgets_history(&self, _: ()) {}
    fn update(&mut self, _: ()) -> bool {
        self.0
    }
    fn value(&self) -> bool {
        self.0
    }
    fn reset(&mut self) {}
}

#[test]
fn boolean_combinators() {
    assert!(Const(true).and(Const(true)).update(()));
    assert!(!Const(true).and(Const(false)).update(()));
    assert!(Const(false).or(Const(true)).update(()));
    assert!(Const(true).xor(Const(false)).update(()));
    assert!(Const(false).not().update(()));
}

#[test]
fn change_fires_on_each_toggle() {
    let mut c = Script::new(&[false, false, true, true, false]).changed();
    assert!(!c.update(())); // first step: no prior
    assert!(!c.update(())); // false -> false
    assert!(c.update(())); // false -> true
    assert!(!c.update(())); // true -> true
    assert!(c.update(())); // true -> false
}
