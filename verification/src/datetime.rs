//! Timezone-aware timestamp formatting: the current instant rendered as the
//! civil time of a configured zone.

use vstd::prelude::*;
use crate::calendar::{civil_at, civil_of_instant};
use crate::clock::{current_epoch_seconds, utc_offset_seconds, zone_offset, MAX_SAFE_SECONDS_ABS};
use crate::render::{render_timestamp, timestamp_seq};
use crate::zone::Zone;

verus! {

/// The civil-time rendering of instant `t` in the zone named `name`: the
/// layout `DD/MM/YYYY - HH:MM:SS` applied to the civil time that `t` plus
/// the zone's offset at `t` denotes.
pub open spec fn formatted_at(name: Seq<char>, t: int) -> Seq<char> {
    timestamp_seq(civil_at(t + zone_offset(name, t)))
}

/// Renders instant `t` as the wall-clock time of `timezone`.
pub fn format_at(timezone: &Zone, t: i64) -> (r: String)
    requires
        -MAX_SAFE_SECONDS_ABS <= t <= MAX_SAFE_SECONDS_ABS,
    ensures
        r@ == formatted_at(timezone@, t as int),
        civil_at(t + zone_offset(timezone@, t as int)).wf(),
{
    proof {
        use_type_invariant(timezone);
    }
    let off = utc_offset_seconds(timezone.name(), t);
    let local = t + off as i64;
    let c = civil_of_instant(local);
    render_timestamp(&c)
}

/// Renders the current instant as the wall-clock time of `timezone`.
pub fn get_datetime(timezone: &Zone) -> (r: String)
    ensures
        exists|t: int|
            -MAX_SAFE_SECONDS_ABS <= t <= MAX_SAFE_SECONDS_ABS && r@ == #[trigger] formatted_at(
                timezone@,
                t,
            ),
{
    let t = current_epoch_seconds();
    let r = format_at(timezone, t);
    proof {
        assert(r@ == formatted_at(timezone@, t as int));
    }
    r
}

} // verus!
