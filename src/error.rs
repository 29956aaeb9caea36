//! Errors shared by the statistics traits.
use vstd::prelude::*;

verus! {

/// Error returned by a statistic that cannot be computed.
#[derive(Debug, Clone, Copy, PartialEq, Eq, Structural)]
pub enum StatsError {
    /// The collection holds no element (or no weight).
    EmptyCollection,
    /// A value could not be converted between two representations.
    CouldNotConvert {
        /// Representation the conversion started from.
        from: DataType,
        /// Representation the conversion aimed at.
        to: DataType,
    },
}

/// The representations that a statistic may convert between.
#[derive(Debug, Clone, Copy, PartialEq, Eq, Structural)]
pub enum DataType {
    /// An unsigned count of elements.
    Usize,
    /// A double-precision float.
    F64,
    /// The collection's element type.
    Item,
}

} // verus!
