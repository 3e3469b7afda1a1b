use vstd::prelude::*;

verus! {

/// Errors of the averaging engine.
#[derive(Clone, Copy, Debug, PartialEq, Eq, Structural)]
pub enum ScopeError {
    /// An entry index outside the table.
    TwapSourceIndexOutOfRange,
    /// A sample came less than the minimum spacing after the previous one.
    TwapSampleTooFrequent,
    /// The period holds too few updates, or none at one of its edges.
    TwapNotEnoughSamplesInPeriod,
    /// The current time lies before the last update.
    BadTimestamp,
    /// A fixed-point result did not fit its representation.
    IntegerOverflow,
    /// A timeframe mask with bits beyond the three timeframes.
    TwapEnabledBitmaskConversionFailure,
}

} // verus!
