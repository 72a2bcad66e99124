//! The system clock and the timezone database's offset lookup, reached
//! through trusted wrappers around `chrono` and `chrono-tz`.

use vstd::prelude::*;
use crate::zone::is_recognized_zone;

verus! {

/// Largest second count (in absolute value) the clock wrapper can report:
/// `chrono`'s `DateTime` spans roughly the years -262144 to 262143, about
/// 8.34e12 seconds either side of the epoch.
pub const MAX_CLOCK_SECONDS_ABS: i64 = 8_400_000_000_000;

/// Largest second count (in absolute value) accepted by the offset lookup
/// and the formatting entry points; instants this size stay well inside
/// `chrono`'s range whatever offset a zone adds.
pub const MAX_SAFE_SECONDS_ABS: i64 = 8_000_000_000_000;

/// Relies on `chrono::Utc::now` and `DateTime::timestamp`: the current
/// instant as whole seconds since the Unix epoch, always within `chrono`'s
/// documented `DateTime` range.
#[verifier::external_body]
fn now_epoch_seconds() -> (t: i64)
    ensures
        -MAX_CLOCK_SECONDS_ABS <= t <= MAX_CLOCK_SECONDS_ABS,
{
    chrono::Utc::now().timestamp()
}

/// The current instant, clamped to the range the calendar conversion
/// supports (the clamp is reachable only hundreds of millennia from now).
pub fn current_epoch_seconds() -> (t: i64)
    ensures
        -MAX_SAFE_SECONDS_ABS <= t <= MAX_SAFE_SECONDS_ABS,
{
    let t = now_epoch_seconds();
    if t > MAX_SAFE_SECONDS_ABS {
        MAX_SAFE_SECONDS_ABS
    } else if t < -MAX_SAFE_SECONDS_ABS {
        -MAX_SAFE_SECONDS_ABS
    } else {
        t
    }
}

/// The offset, in seconds east of UTC, that the zone named `name` applies
/// at instant `t` (daylight-saving rules included). A function of the name
/// and the instant alone: the rule table is compiled into the timezone
/// database crate.
pub uninterp spec fn zone_offset(name: Seq<char>, t: int) -> int;

/// Relies on `chrono_tz::Tz::from_str` and `chrono`'s `Offset`/`TimeZone`
/// impls: converting an in-range UTC instant to a recognized zone yields
/// that zone's offset at that instant, and `chrono`'s `FixedOffset` keeps
/// every offset strictly between -86400 and 86400 seconds.
#[verifier::external_body]
pub(crate) fn utc_offset_seconds(name: &str, t: i64) -> (off: i32)
    requires
        is_recognized_zone(name@),
        -MAX_SAFE_SECONDS_ABS <= t <= MAX_SAFE_SECONDS_ABS,
    ensures
        off as int == zone_offset(name@, t as int),
        -86400 < off < 86400,
{
    let tz = <chrono_tz::Tz as std::str::FromStr>::from_str(name).unwrap();
    let utc = chrono::DateTime::<chrono::Utc>::from_timestamp(t, 0).unwrap();
    chrono::Offset::fix(utc.with_timezone(&tz).offset()).local_minus_utc()
}

} // verus!
