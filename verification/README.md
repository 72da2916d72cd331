# arcana

Incremental building blocks for technical-analysis strategies, verified with
Verus.

## Layout

- `src/signal.rs` — the `Signal` trait (a deterministic transition `step`, an
  observable `holds`, a reset target `cleared`) and the combinators `And`,
  `Or`, `Xor`, `Not`, `Change`, with proofs of how each behaves over any run of
  inputs and that a reset forgets all history.
- `src/strategies/` — the strategy catalogue. Each strategy advances all of its
  signals every bar and decides an `Order` from the signals and the current
  `Exposure`; the decision rules and their properties are proved.
- `src/cli/` — `--param NAME=value` parsing and `!param` substitution over a
  YAML tree (`yaml.rs` holds the tree model; `params.rs` the table, the
  substitution and the argument parser).
- `app/` — the floating-point side: candles, EMA/Wilder smoothing, the ADX, the
  classification of float readings into the plain values the rules take, and
  the hand-back of a substituted tree to `serde_norway`.
- `tests/` — behavioural tests.
