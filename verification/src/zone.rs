//! Timezone identifiers: names drawn from the IANA timezone database, with
//! validation at construction time.

use vstd::prelude::*;

verus! {

/// Whether a name denotes a timezone of the IANA table bundled with the
/// timezone database.
pub uninterp spec fn is_recognized_zone(name: Seq<char>) -> bool;

/// The process-wide default timezone.
pub open spec fn default_zone_name() -> Seq<char> {
    "Europe/Warsaw"@
}

/// Relies on `chrono_tz::Tz::from_str`: parsing succeeds exactly for the
/// zone names of the bundled IANA table, a fixed table that contains
/// "Europe/Warsaw".
#[verifier::external_body]
fn zone_recognized(name: &str) -> (r: bool)
    ensures
        r == is_recognized_zone(name@),
        name@ == default_zone_name() ==> r,
{
    <chrono_tz::Tz as std::str::FromStr>::from_str(name).is_ok()
}

/// A validated timezone identifier. Every value holds a name that the
/// timezone database recognizes; there is no unset or invalid state.
pub struct Zone {
    name: String,
}

impl View for Zone {
    type V = Seq<char>;

    closed spec fn view(&self) -> Seq<char> {
        self.name@
    }
}

impl Zone {
    /// Every `Zone` value holds a recognized name.
    #[verifier::type_invariant]
    pub open spec fn inv(self) -> bool {
        is_recognized_zone(self@)
    }

    /// Validates a zone name against the timezone database; an unrecognized
    /// name is a configuration error and yields `None`.
    pub fn from_name(name: &str) -> (r: Option<Zone>)
        ensures
            match r {
                Some(z) => z@ == name@ && is_recognized_zone(name@),
                None => !is_recognized_zone(name@),
            },
    {
        if zone_recognized(name) {
            Some(Zone { name: String::from_str(name) })
        } else {
            None
        }
    }

    /// The zone's canonical name.
    pub fn name(&self) -> (r: &str)
        ensures
            r@ == self@,
    {
        self.name.as_str()
    }
}

/// The default timezone as a `Zone` value.
pub fn default_zone() -> (z: Zone)
    ensures
        z@ == default_zone_name(),
{
    if zone_recognized("Europe/Warsaw") {
        Zone { name: String::from_str("Europe/Warsaw") }
    } else {
        vstd::pervasive::unreached()
    }
}

/// The canonical name of the default timezone, for display.
pub fn get_default_timezone() -> (r: String)
    ensures
        r@ == default_zone_name(),
{
    String::from_str("Europe/Warsaw")
}

} // verus!
