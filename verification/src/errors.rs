//! Error taxonomy of the market-open decision engine.

use vstd::prelude::*;

verus! {

/// Errors that the market-open decision engine can report.
///
/// `OutsideBusinessHours` is the denial outcome reserved for the
/// transfer-authorization boundary that consumes the open/closed decision;
/// the decision engine itself never constructs it.  `ConvertUTCError` marks a
/// timestamp that does not map to a single valid calendar moment.
/// `HolidayTableDefect` marks a violation of the static holiday-table
/// invariant (a floating rule with no matching day in some month); it is
/// reported through the normal error channel rather than by aborting, since
/// the engine runs inline with request validation.
#[derive(Clone, Copy, Debug, PartialEq, Eq, Structural)]
pub enum StockMarketError {
    /// Operation is not allowed outside business hours.
    OutsideBusinessHours,
    /// The supplied timestamp could not be converted to a calendar moment.
    ConvertUTCError,
    /// A weekday search required by the fixed holiday table found no match.
    HolidayTableDefect,
}

impl StockMarketError {
    /// Stable numeric code of each error, for cross-boundary compatibility.
    pub fn code(&self) -> (c: u32)
        ensures
            c == match *self {
                StockMarketError::OutsideBusinessHours => 818340127u32,
                StockMarketError::ConvertUTCError => 818340128u32,
                StockMarketError::HolidayTableDefect => 818340129u32,
            },
    {
        match *self {
            StockMarketError::OutsideBusinessHours => 818340127,
            StockMarketError::ConvertUTCError => 818340128,
            StockMarketError::HolidayTableDefect => 818340129,
        }
    }
}

} // verus!
