//! # Arcana
//!
//! Building blocks for technical-analysis strategies designed around
//! *incremental* computation: every primitive owns its state and is advanced
//! one sample at a time.
//!
//! * [`Signal`] — incremental, composable booleans, combined with the
//!   [`SignalExt`] combinators (`and`/`or`/`xor`/`not`/`changed`). A signal's
//!   behaviour is a deterministic transition (`step`) with an observable
//!   boolean (`holds`) and a reset target (`cleared`).
//! * [`strategies`] — classical single-asset strategies: each advances its
//!   signals every bar and decides the order to place.
//! * [`cli`] — `--param NAME=value` substitution into a YAML strategy file.
pub mod cli;
pub mod prelude;
pub mod signal;
pub mod strategies;

pub use signal::{Signal, SignalExt};
