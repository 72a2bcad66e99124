//! A minimal timezone-aware leveled console logger.
//!
//! The library renders the current wall-clock time of a configurable IANA
//! timezone in the fixed layout `DD/MM/YYYY - HH:MM:SS` and writes leveled,
//! timestamped lines to standard output. The calendar arithmetic and the
//! rendering are verified; the system clock and the timezone database are
//! reached through small trusted wrappers around `chrono` and `chrono-tz`.

pub mod calendar;
pub mod clock;
pub mod datetime;
pub mod logger;
pub mod render;
pub mod zone;

pub use datetime::{format_at, get_datetime};
pub use logger::{Level, Logger};
pub use zone::{get_default_timezone, Zone};
