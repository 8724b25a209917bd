//! Decides whether a regulated securities market (modeled on US equities
//! trading hours) is open at a given instant: UTC-to-Eastern-Time conversion
//! with daylight-saving awareness, a weekday-in-month search, a holiday
//! calendar (fixed dates, floating weekday rules, and a Good Friday rule
//! derived from Easter), and their composition into one open/closed decision.

pub mod calendar;
pub mod errors;
pub mod market;
pub mod timezone;
