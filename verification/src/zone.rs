//! Time zones, named as in the IANA database.

use chrono::TimeZone;
use vstd::prelude::*;

verus! {

/// Whether `name` is one of the zone names that chrono-tz was built with.
pub uninterp spec fn is_iana_zone(name: Seq<char>) -> bool;

/// Looks `name` up with chrono-tz's `FromStr` impl for `Tz`, which finds
/// exactly the zone names that the crate was built with, letter for letter.
#[verifier::external_body]
fn zone_exists(name: &str) -> (known: bool)
    ensures
        known == is_iana_zone(name@),
{
    name.parse::<chrono_tz::Tz>().is_ok()
}

/// The name that `chrono_tz::Etc::UTC` reports through `Tz::name`. It is a
/// variant of `Tz`, so the lookup by that name finds it.
#[verifier::external_body]
fn utc_name() -> (name: String)
    ensures
        name@ == UTC@,
        is_iana_zone(name@),
{
    chrono_tz::Etc::UTC.name().to_string()
}

/// The text of RFC 2822 for the instant `at` in the zone called `zone`, such as
/// `Tue, 1 Jul 2003 10:52:37 +0200`.
pub uninterp spec fn rfc2822_text(at: i64, zone: Seq<char>) -> Seq<char>;

/// The first instant that is written out as a date.
pub const FIRST_DATE: i64 = -62_000_000_000;

/// The last instant that is written out as a date.
pub const LAST_DATE: i64 = 253_000_000_000;

/// Whether the instant `at` falls, in every zone, in a year of one to four
/// digits: RFC 2822 has no text for other years.
pub open spec fn has_date(at: i64) -> bool {
    FIRST_DATE <= at <= LAST_DATE
}

/// chrono's `DateTime::to_rfc2822` of the instant `at`, taken in the zone
/// called `zone` through `TimeZone::timestamp_opt`. The empty text where
/// `zone` is no zone. The instant must have a date: `to_rfc2822` panics on a
/// year before 0 or after 9999.
#[verifier::external_body]
pub(crate) fn rfc2822(at: i64, zone: &str) -> (text: String)
    requires
        has_date(at),
    ensures
        text@ == rfc2822_text(at, zone@),
{
    let Ok(tz) = zone.parse::<chrono_tz::Tz>() else {
        return String::new();
    };
    match tz.timestamp_opt(at, 0).single() {
        Some(t) => t.to_rfc2822(),
        None => String::new(),
    }
}

/// The zone of a channel whose zone was never set.
pub const UTC: &'static str = "Etc/UTC";

/// The error of a zone name that the database does not hold.
#[derive(Debug)]
pub struct InvalidTimezone {
    /// The name that was asked for.
    pub name: String,
}

/// A zone of the IANA database, held by its name.
#[derive(Debug)]
pub struct Timezone {
    name: String,
}

impl View for Timezone {
    type V = Seq<char>;

    closed spec fn view(&self) -> Seq<char> {
        self.name@
    }
}

impl Timezone {
    /// Every zone value carries a name that the database knows.
    #[verifier::type_invariant]
    pub open spec fn known(self) -> bool {
        is_iana_zone(self@)
    }

    /// Coordinated universal time, the zone of a channel until another is set.
    pub fn utc() -> (tz: Timezone)
        ensures
            tz@ == UTC@,
    {
        Timezone { name: utc_name() }
    }

    /// The zone called `name`, or the error when the database has no such zone.
    pub fn parse(name: &str) -> (parsed: Result<Timezone, InvalidTimezone>)
        ensures
            match parsed {
                Ok(tz) => is_iana_zone(name@) && tz@ == name@,
                Err(e) => !is_iana_zone(name@) && e.name@ == name@,
            },
    {
        if zone_exists(name) {
            Ok(Timezone { name: name.to_owned() })
        } else {
            Err(InvalidTimezone { name: name.to_owned() })
        }
    }

    /// The zone's name, which the database knows.
    pub fn name(&self) -> (name: &str)
        ensures
            name@ == self@,
            is_iana_zone(name@),
    {
        proof {
            use_type_invariant(self);
        }
        self.name.as_str()
    }
}

impl Clone for Timezone {
    fn clone(&self) -> (tz: Timezone)
        ensures
            tz@ == self@,
    {
        proof {
            use_type_invariant(self);
        }
        Timezone { name: self.name.clone() }
    }
}

} // verus!
