//! Convenient glob-import of the core traits and types.
pub use crate::signal::{Signal, SignalExt};
pub use crate::strategies::{Exposure, Order, Side};
