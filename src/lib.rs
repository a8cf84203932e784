//! Position sizing for a trade: per-unit risk, equity at risk and share
//! counts for a sweep of risk percentages, with the text reports built on them.
//!
//! Money is held as a whole number of cents; a risk percentage is held as a
//! whole number of hundredths of a percent (`125` is 1.25%).

pub mod amount;
pub mod args;
pub mod report;
pub mod sizing;
