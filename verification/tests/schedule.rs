use reminders::schedule::{first_later, Schedule, EARLIEST, LATEST};
use reminders::zone::Timezone;

fn zone(name: &str) -> Timezone {
    Timezone::parse(name).expect("a zone")
}

#[test]
fn parser_accepts_six_and_seven_fields() {
    assert_eq!(Schedule::from_str("0 30 9 * * * *").expect("a schedule").source(), "0 30 9 * * * *");
    assert!(Schedule::from_str("0 30 9 * * *").is_ok());
    assert!(Schedule::from_str("0 0 0 15 * ? *").is_ok());
    assert!(Schedule::from_str("0 0 0 ? * Mon *").is_ok());
    assert!(Schedule::from_str("@daily").is_ok());
}

#[test]
fn parser_refuses_what_is_no_schedule() {
    let refused = Schedule::from_str("nonsense").expect_err("no schedule");
    assert_eq!(refused.expr, "nonsense");
    assert!(Schedule::from_str("").is_err());
    assert!(Schedule::from_str("0 60 * * * * *").is_err());
    assert!(Schedule::from_str("0 * * * * * * *").is_err());
    assert!(Schedule::from_str("0 */0 * * * * *").is_err());
    assert!(Schedule::from_str("? * * * * * *").is_err());
}

#[test]
fn clone_keeps_the_expression() {
    let schedule = Schedule::from_str("0 30 9 * * * *").expect("a schedule");
    assert_eq!(schedule.clone().source(), "0 30 9 * * * *");
}

#[test]
fn next_instant_in_utc() {
    let schedule = Schedule::from_str("0 30 9 * * * *").expect("a schedule");
    assert_eq!(schedule.next_after(&Timezone::utc(), 1609459200), Some(1609493400));
    assert_eq!(schedule.next_after(&Timezone::utc(), 1609493399), Some(1609493400));
    assert_eq!(schedule.next_after(&Timezone::utc(), 1609493400), Some(1609493400 + 86400));
}

#[test]
fn next_instant_follows_the_zone() {
    let schedule = Schedule::from_str("0 30 9 * * * *").expect("a schedule");
    assert_eq!(schedule.next_after(&zone("Europe/Berlin"), 1609459200), Some(1609489800));
    assert_eq!(schedule.next_after(&zone("Asia/Tokyo"), 1609459200), Some(1609459200 + 1800));
}

#[test]
fn next_instant_is_later_than_now() {
    let zones = [zone("Etc/UTC"), zone("Europe/Berlin"), zone("America/New_York"), zone("Asia/Kolkata")];
    let exprs = ["* * * * * * *", "0 * * * * * *", "0 0 12 * * Mon *", "0 0 0 29 2 ? *", "0 15 10 ? * 6L *"];
    let nows = [0, 1, 59, 1609459200, 1636263000, 1636265700, 1636266600, 4133980799];
    for tz in &zones {
        for expr in &exprs {
            let Ok(schedule) = Schedule::from_str(expr) else {
                continue;
            };
            for now in nows {
                if let Some(at) = schedule.next_after(tz, now) {
                    assert!(at > now, "{} in {} at {}", expr, tz.name(), now);
                }
            }
        }
    }
}

#[test]
fn every_second_is_due_a_second_later() {
    let schedule = Schedule::from_str("* * * * * * *").expect("a schedule");
    assert_eq!(schedule.next_after(&Timezone::utc(), 1609459200), Some(1609459201));
    assert_eq!(schedule.next_after(&zone("Asia/Kolkata"), 1609459200), Some(1609459201));
}

#[test]
fn repeated_hour_yields_the_reading_that_is_to_come() {
    let schedule = Schedule::from_str("0 30 1 * * * *").expect("a schedule");
    let new_york = zone("America/New_York");
    assert_eq!(schedule.next_after(&new_york, 1636263000 - 600), Some(1636263000));
    assert_eq!(schedule.next_after(&new_york, 1636265700), Some(1636266600));
}

#[test]
fn schedule_of_the_past_names_no_instant() {
    let schedule = Schedule::from_str("0 0 0 1 1 ? 1999").expect("a schedule");
    assert_eq!(schedule.next_after(&Timezone::utc(), 1609459200), None);
    assert_eq!(schedule.next_after(&Timezone::utc(), 0), Some(915148800));
}

#[test]
fn nothing_is_due_after_the_last_year() {
    let schedule = Schedule::from_str("0 0 0 * * * *").expect("a schedule");
    assert_eq!(schedule.next_after(&Timezone::utc(), 4133980799 - 86400), Some(4133980800 - 86400));
    assert_eq!(schedule.next_after(&Timezone::utc(), 4133980800), None);
}

#[test]
fn nothing_is_due_outside_the_calendar() {
    let schedule = Schedule::from_str("* * * * * * *").expect("a schedule");
    assert_eq!(schedule.next_after(&Timezone::utc(), LATEST + 1), None);
    assert_eq!(schedule.next_after(&Timezone::utc(), EARLIEST - 1), None);
    assert_eq!(schedule.next_after(&Timezone::utc(), i64::MAX), None);
    assert_eq!(schedule.next_after(&Timezone::utc(), i64::MIN), None);
    assert_eq!(schedule.next_after(&Timezone::utc(), LATEST), None);
    assert_eq!(schedule.next_after(&Timezone::utc(), EARLIEST), None);
}

#[test]
fn before_the_first_year_the_first_year_is_next() {
    let schedule = Schedule::from_str("* * * * * * *").expect("a schedule");
    assert_eq!(schedule.next_after(&Timezone::utc(), -1), Some(0));
    assert_eq!(schedule.next_after(&Timezone::utc(), -2), Some(0));
    assert_eq!(schedule.next_after(&Timezone::utc(), -86400 * 365), Some(0));
}

#[test]
fn first_later_skips_what_is_not_later() {
    assert_eq!(first_later(&vec![], 5), None);
    assert_eq!(first_later(&vec![5], 5), None);
    assert_eq!(first_later(&vec![6], 5), Some(6));
    assert_eq!(first_later(&vec![3, 9], 5), Some(9));
    assert_eq!(first_later(&vec![9, 7], 5), Some(9));
    assert_eq!(first_later(&vec![1, 2, 3], 5), None);
    assert_eq!(first_later(&vec![i64::MIN, i64::MAX], i64::MAX - 1), Some(i64::MAX));
}

#[test]
fn zones_are_looked_up_letter_for_letter() {
    assert_eq!(Timezone::utc().name(), "Etc/UTC");
    assert_eq!(zone("UTC").name(), "UTC");
    assert_eq!(zone("Europe/Berlin").clone().name(), "Europe/Berlin");
    assert_eq!(Timezone::parse("Invalid/Zone").expect_err("no zone").name, "Invalid/Zone");
    assert!(Timezone::parse("europe/berlin").is_err());
    assert!(Timezone::parse(" Europe/Berlin").is_err());
    assert!(Timezone::parse("").is_err());
}
