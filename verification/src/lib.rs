//! A date-difference calculator: parses a `month/day[/year]` string,
//! validates it against the Gregorian calendar, fills in a missing year
//! from today's date (rolling to next year when the day has passed), and
//! builds a sentence saying how many days remain until, or have passed
//! since, that date.
//!
//! Parsing, validation, year rollover and all formatting are verified
//! here; the proleptic Gregorian day count and the weekday come from
//! chrono behind two specified wrappers in [`calendar`].

pub mod calendar;
pub mod laws;
pub mod split;
pub mod text;
pub mod ymd;
