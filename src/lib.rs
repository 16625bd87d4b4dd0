//! Turns a count of seconds into years, days, hours, minutes and seconds,
//! and renders the result as an English phrase such as
//! "1 hour, 59 minutes and 59 seconds.".
pub mod duration;
pub mod unit;

pub use duration::{Duration, RawSeconds};
pub use unit::{TimeUnit, TimeUnitKind};
