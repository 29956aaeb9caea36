//! Descriptive statistics over collections of integers, with every
//! failure reported as a value.
pub mod error;
pub mod freq;
pub mod model;
pub mod num;
pub mod stats;
pub mod types;

pub use crate::error::{DataType, StatsError};
pub use crate::freq::FrequencyStats;
pub use crate::num::{MinMax, NumExt};
pub use crate::stats::Stats;
pub use crate::types::Result;
