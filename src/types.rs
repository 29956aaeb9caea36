//! Type aliases.
use vstd::prelude::*;

verus! {

/// A `Result` whose error is a [`StatsError`](crate::StatsError).
pub type Result<T> = core::result::Result<T, crate::StatsError>;

} // verus!
