//! Recurring schedules: cron expressions, and the instants they name.
//!
//! An instant is a count of seconds since 1970-01-01 00:00:00 UTC.

use crate::zone::Timezone;
use chrono::TimeZone;
use vstd::prelude::*;

verus! {

/// Whether cron's parser accepts `expr` as a schedule.
pub uninterp spec fn cron_accepts(expr: Seq<char>) -> bool;

/// The first `count` instants, in the order in which cron's iterator yields
/// them, of the schedule `expr` read in the zone `zone`, starting after the
/// instant `after`. Empty where `expr` is no schedule or `zone` no zone.
pub uninterp spec fn cron_upcoming(
    expr: Seq<char>,
    zone: Seq<char>,
    after: i64,
    count: usize,
) -> Seq<i64>;

/// The earliest instant from which schedules are worked out.
pub const EARLIEST: i64 = -1_000_000_000_000;

/// The latest instant from which schedules are worked out.
pub const LATEST: i64 = 1_000_000_000_000;

/// Whether `t` lies in the span of some thirty thousand years either side of
/// 1970 in which the calendar arithmetic cannot leave its range.
pub open spec fn in_calendar(t: i64) -> bool {
    EARLIEST <= t <= LATEST
}

/// Parses `expr` with cron's `FromStr` impl for `Schedule` and says whether
/// that succeeded.
#[verifier::external_body]
fn expression_parses(expr: &str) -> (accepted: bool)
    ensures
        accepted == cron_accepts(expr@),
{
    expr.parse::<cron::Schedule>().is_ok()
}

/// Walks cron's `Schedule::after` from the instant `after`, taken in the zone
/// `zone` through chrono's `TimeZone::timestamp_opt`, and hands out at most
/// `count` instants as chrono's `DateTime::timestamp` gives them. The start
/// must lie in the calendar span: cron adds a second to it, which chrono
/// refuses at the end of its range.
#[verifier::external_body]
fn upcoming_instants(expr: &str, zone: &str, after: i64, count: usize) -> (found: Vec<i64>)
    requires
        in_calendar(after),
    ensures
        found@ == cron_upcoming(expr@, zone@, after, count),
        found@.len() <= count,
{
    let Ok(schedule) = expr.parse::<cron::Schedule>() else {
        return Vec::new();
    };
    let Ok(tz) = zone.parse::<chrono_tz::Tz>() else {
        return Vec::new();
    };
    let Some(start) = tz.timestamp_opt(after, 0).single() else {
        return Vec::new();
    };
    schedule.after(&start).take(count).map(|t| t.timestamp()).collect()
}

/// The first of `instants` that is later than `now`.
pub open spec fn first_after(instants: Seq<i64>, now: i64) -> Option<i64>
    decreases instants.len(),
{
    if instants.len() == 0 {
        None
    } else if instants[0] > now {
        Some(instants[0])
    } else {
        first_after(instants.drop_first(), now)
    }
}

/// What `first_after` finds is one of the instants and later than `now`, and
/// nothing before it in the sequence is later than `now`.
pub proof fn lemma_first_after(instants: Seq<i64>, now: i64)
    ensures
        match first_after(instants, now) {
            Some(t) => t > now && exists|i: int|
                0 <= i < instants.len() && instants[i] == t && forall|j: int|
                    0 <= j < i ==> instants[j] <= now,
            None => forall|i: int| 0 <= i < instants.len() ==> instants[i] <= now,
        },
    decreases instants.len(),
{
    if instants.len() == 0 {
    } else if instants[0] > now {
    } else {
        let rest = instants.drop_first();
        lemma_first_after(rest, now);
        match first_after(rest, now) {
            Some(t) => {
                let i = choose|i: int|
                    0 <= i < rest.len() && rest[i] == t && forall|j: int|
                        0 <= j < i ==> rest[j] <= now;
                assert forall|j: int| 0 <= j < i + 1 implies instants[j] <= now by {
                    if j > 0 {
                        assert(rest[j - 1] == instants[j]);
                    }
                }
            },
            None => {
                assert forall|i: int| 0 <= i < instants.len() implies instants[i] <= now by {
                    if i > 0 {
                        assert(rest[i - 1] == instants[i]);
                    }
                }
            },
        }
    }
}

/// The first of `instants` that is later than `now`, if there is one.
pub fn first_later(instants: &Vec<i64>, now: i64) -> (found: Option<i64>)
    ensures
        found == first_after(instants@, now),
        found matches Some(t) ==> t > now,
{
    let mut i: usize = 0;
    assert(instants@.skip(0) == instants@);
    while i < instants.len()
        invariant
            i <= instants.len(),
            first_after(instants@, now) == first_after(instants@.skip(i as int), now),
        decreases instants.len() - i,
    {
        let t = instants[i];
        proof {
            let rest = instants@.skip(i as int);
            assert(rest.drop_first() == instants@.skip(i + 1));
        }
        if t > now {
            return Some(t);
        }
        i = i + 1;
    }
    None
}

/// The error of an expression that is no schedule, or of a schedule that names
/// no instant to come.
#[derive(Debug)]
pub struct InvalidSchedule {
    /// The expression that was refused.
    pub expr: String,
}

/// A cron expression that the parser has accepted.
#[derive(Debug)]
pub struct Schedule {
    source: String,
}

impl View for Schedule {
    type V = Seq<char>;

    closed spec fn view(&self) -> Seq<char> {
        self.source@
    }
}

impl Schedule {
    /// Every schedule value carries an expression that the parser accepts.
    #[verifier::type_invariant]
    pub open spec fn accepted(self) -> bool {
        cron_accepts(self@)
    }

    /// The instant at which a schedule `expr`, read in `zone`, is next due
    /// when the clock shows `now`: the first later than `now` among the two
    /// that cron yields first. Two, because an hour that a zone repeats makes
    /// cron yield the earlier of its two readings first, which may lie behind
    /// `now`. From a `now` outside the calendar span nothing is due.
    pub open spec fn next_due(expr: Seq<char>, zone: Seq<char>, now: i64) -> Option<i64> {
        if in_calendar(now) {
            first_after(cron_upcoming(expr, zone, now, 2), now)
        } else {
            None
        }
    }

    /// The schedule that `expr` spells, or the error when the parser refuses it.
    pub fn from_str(expr: &str) -> (parsed: Result<Schedule, InvalidSchedule>)
        ensures
            match parsed {
                Ok(schedule) => cron_accepts(expr@) && schedule@ == expr@,
                Err(e) => !cron_accepts(expr@) && e.expr@ == expr@,
            },
    {
        if expression_parses(expr) {
            Ok(Schedule { source: expr.to_owned() })
        } else {
            Err(InvalidSchedule { expr: expr.to_owned() })
        }
    }

    /// The expression as it was given.
    pub fn source(&self) -> (expr: &str)
        ensures
            expr@ == self@,
            cron_accepts(expr@),
    {
        proof {
            use_type_invariant(self);
        }
        self.source.as_str()
    }

    /// The next instant, strictly after `now`, at which the schedule is due in
    /// `zone`; `None` when it names none.
    pub fn next_after(&self, zone: &Timezone, now: i64) -> (due: Option<i64>)
        ensures
            due == Self::next_due(self@, zone@, now),
            due matches Some(t) ==> t > now,
    {
        if now < EARLIEST || now > LATEST {
            return None;
        }
        let found = upcoming_instants(self.source.as_str(), zone.name(), now, 2);
        first_later(&found, now)
    }
}

impl Clone for Schedule {
    fn clone(&self) -> (copy: Schedule)
        ensures
            copy@ == self@,
    {
        proof {
            use_type_invariant(self);
        }
        Schedule { source: self.source.clone() }
    }
}

} // verus!
