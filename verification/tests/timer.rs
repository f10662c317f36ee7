use reminders::manager::{
    remind_at, wait_until, Manager, Timer, TimerAction, TimerEvent, TimerState,
};
use reminders::reminder::{Reminder, ReminderId, ReminderType};
use reminders::schedule::Schedule;
use reminders::zone::Timezone;

fn once(msg: &str, at: i64) -> Reminder {
    Reminder { reminder_type: ReminderType::Once(at), msg: msg.to_string() }
}

fn scheduled(msg: &str, expr: &str) -> Reminder {
    let schedule = Schedule::from_str(expr).expect("a schedule");
    Reminder { reminder_type: ReminderType::Scheduled(schedule), msg: msg.to_string() }
}

fn manager() -> Manager {
    Manager::with_file(&Vec::new())
}

#[test]
fn wait_until_counts_the_seconds_ahead() {
    assert_eq!(wait_until(100, 40), 60);
    assert_eq!(wait_until(100, 99), 1);
    assert_eq!(wait_until(100, 100), 0);
    assert_eq!(wait_until(100, 101), 0);
    assert_eq!(wait_until(-5, -10), 5);
    assert_eq!(wait_until(i64::MIN, i64::MAX), 0);
    assert_eq!(wait_until(i64::MAX, i64::MIN), u64::MAX);
    assert_eq!(wait_until(i64::MAX, 0), 9223372036854775807);
}

#[test]
fn timer_starts_computing() {
    let timer = Timer::new(3, Timezone::utc(), ReminderId::from_raw(4294967297), once("ping", 50));
    assert_eq!(timer.state, TimerState::Computing);
    assert_eq!(timer.channel_id, 3);
    assert_eq!(timer.tz.name(), "Etc/UTC");
    assert_eq!(timer.key.number(), 4294967297);
    assert_eq!(timer.reminder.msg, "ping");
}

#[test]
fn once_timer_walks_through_its_states() {
    let mut timer = Timer::new(3, Timezone::utc(), ReminderId::from_raw(4294967297), once("ping", 50));
    assert_eq!(timer.step(TimerEvent::Clock(20)), TimerAction::Sleep(30));
    assert_eq!(timer.state, TimerState::Waiting(50));
    assert_eq!(timer.step(TimerEvent::Woke), TimerAction::Verify);
    assert_eq!(timer.state, TimerState::Verifying);
    assert_eq!(timer.step(TimerEvent::Found(true)), TimerAction::Deliver);
    assert_eq!(timer.state, TimerState::Firing);
    assert_eq!(timer.step(TimerEvent::Delivered), TimerAction::Retire);
    assert_eq!(timer.state, TimerState::Terminal);
    assert_eq!(timer.step(TimerEvent::Clock(60)), TimerAction::Ignore);
    assert_eq!(timer.state, TimerState::Terminal);
}

#[test]
fn scheduled_timer_starts_over_after_firing() {
    let mut timer = Timer::new(
        3,
        Timezone::parse("Europe/Berlin").expect("a zone"),
        ReminderId::from_raw(4294967297),
        scheduled("ping", "0 30 9 * * * *"),
    );
    assert_eq!(timer.step(TimerEvent::Clock(1609459200)), TimerAction::Sleep(30600));
    assert_eq!(timer.state, TimerState::Waiting(1609489800));
    assert_eq!(timer.step(TimerEvent::Woke), TimerAction::Verify);
    assert_eq!(timer.step(TimerEvent::Found(true)), TimerAction::Deliver);
    assert_eq!(timer.step(TimerEvent::Delivered), TimerAction::ReadClock);
    assert_eq!(timer.state, TimerState::Computing);
    assert_eq!(timer.step(TimerEvent::Clock(1609489800)), TimerAction::Sleep(86400));
    assert_eq!(timer.state, TimerState::Waiting(1609489800 + 86400));
}

#[test]
fn timer_of_a_missing_reminder_stops_without_firing() {
    let mut timer = Timer::new(3, Timezone::utc(), ReminderId::from_raw(4294967297), once("ping", 50));
    timer.step(TimerEvent::Clock(20));
    timer.step(TimerEvent::Woke);
    assert_eq!(timer.step(TimerEvent::Found(false)), TimerAction::Stop);
    assert_eq!(timer.state, TimerState::Terminal);
}

#[test]
fn timer_ignores_what_its_state_does_not_await() {
    let mut timer = Timer::new(3, Timezone::utc(), ReminderId::from_raw(4294967297), once("ping", 50));
    for event in [TimerEvent::Woke, TimerEvent::Found(true), TimerEvent::Found(false), TimerEvent::Delivered] {
        assert_eq!(timer.step(event), TimerAction::Ignore);
        assert_eq!(timer.state, TimerState::Computing);
    }
    timer.step(TimerEvent::Clock(20));
    for event in [TimerEvent::Clock(30), TimerEvent::Found(true), TimerEvent::Delivered] {
        assert_eq!(timer.step(event), TimerAction::Ignore);
        assert_eq!(timer.state, TimerState::Waiting(50));
    }
    timer.step(TimerEvent::Woke);
    for event in [TimerEvent::Clock(30), TimerEvent::Woke, TimerEvent::Delivered] {
        assert_eq!(timer.step(event), TimerAction::Ignore);
        assert_eq!(timer.state, TimerState::Verifying);
    }
    timer.step(TimerEvent::Found(true));
    for event in [TimerEvent::Clock(30), TimerEvent::Woke, TimerEvent::Found(true)] {
        assert_eq!(timer.step(event), TimerAction::Ignore);
        assert_eq!(timer.state, TimerState::Firing);
    }
}

#[test]
fn exhausted_schedule_retires_the_timer() {
    let mut timer = Timer::new(
        3,
        Timezone::utc(),
        ReminderId::from_raw(4294967297),
        scheduled("ping", "0 0 0 1 1 ? 1999"),
    );
    assert_eq!(timer.step(TimerEvent::Clock(1609459200)), TimerAction::Retire);
    assert_eq!(timer.state, TimerState::Terminal);
}

#[test]
fn past_once_reminder_fires_at_once_and_is_removed() {
    let now = 1609459200;
    let mut manager = manager();
    let mut timer = manager.add_reminder(9, once("ping", now - 1));
    let id = timer.key;
    assert!(manager.has_reminder(9, id));
    assert_eq!(manager.drive(&mut timer, TimerEvent::Clock(now)), TimerAction::Sleep(0));
    assert_eq!(manager.drive(&mut timer, TimerEvent::Woke), TimerAction::Deliver);
    assert_eq!(remind_at(&timer.reminder.msg).content, "ping");
    assert!(manager.has_reminder(9, id));
    assert_eq!(manager.drive(&mut timer, TimerEvent::Delivered), TimerAction::Retire);
    assert_eq!(timer.state, TimerState::Terminal);
    assert!(!manager.has_reminder(9, id));
    assert_eq!(manager.drive(&mut timer, TimerEvent::Clock(now + 5)), TimerAction::Ignore);
}

#[test]
fn once_reminder_due_now_does_not_sleep() {
    let mut manager = manager();
    let mut timer = manager.add_reminder(9, once("ping", 500));
    assert_eq!(manager.drive(&mut timer, TimerEvent::Clock(500)), TimerAction::Sleep(0));
    assert_eq!(manager.drive(&mut timer, TimerEvent::Woke), TimerAction::Deliver);
}

#[test]
fn removed_recurring_reminder_never_fires() {
    let now = 1609459200;
    let mut manager = manager();
    let mut timer = manager.add_reminder(9, scheduled("ping", "0 30 9 * * * *"));
    let id = timer.key;
    assert_eq!(manager.drive(&mut timer, TimerEvent::Clock(now)), TimerAction::Sleep(34200));
    manager.remove_reminder(9, id);
    assert!(!manager.has_reminder(9, id));
    assert_eq!(manager.drive(&mut timer, TimerEvent::Woke), TimerAction::Stop);
    assert_eq!(timer.state, TimerState::Terminal);
    for event in [TimerEvent::Clock(now + 40000), TimerEvent::Woke, TimerEvent::Found(true), TimerEvent::Delivered] {
        assert_eq!(manager.drive(&mut timer, event), TimerAction::Ignore);
        assert_eq!(timer.state, TimerState::Terminal);
    }
    assert!(!manager.has_reminder(9, id));
}

#[test]
fn recurring_reminder_stays_in_the_store_after_firing() {
    let now = 1609459200;
    let mut manager = manager();
    let mut timer = manager.add_reminder(9, scheduled("ping", "0 30 9 * * * *"));
    let id = timer.key;
    manager.drive(&mut timer, TimerEvent::Clock(now));
    assert_eq!(manager.drive(&mut timer, TimerEvent::Woke), TimerAction::Deliver);
    assert_eq!(manager.drive(&mut timer, TimerEvent::Delivered), TimerAction::ReadClock);
    assert!(manager.has_reminder(9, id));
    assert_eq!(manager.drive(&mut timer, TimerEvent::Clock(now + 34200)), TimerAction::Sleep(86400));
}

#[test]
fn exhausted_recurring_reminder_is_removed() {
    let mut manager = manager();
    let mut timer = manager.add_reminder(9, scheduled("ping", "0 0 0 1 1 ? 1999"));
    let id = timer.key;
    assert!(manager.has_reminder(9, id));
    assert_eq!(manager.drive(&mut timer, TimerEvent::Clock(1609459200)), TimerAction::Retire);
    assert_eq!(timer.state, TimerState::Terminal);
    assert!(!manager.has_reminder(9, id));
}

#[test]
fn drive_shared_does_all_but_the_taking_out() {
    let now = 1609459200;
    let mut manager = manager();
    let mut timer = manager.add_reminder(9, once("ping", now + 5));
    let id = timer.key;
    assert_eq!(manager.drive_shared(&mut timer, TimerEvent::Clock(now)), Some(TimerAction::Sleep(5)));
    assert_eq!(timer.state, TimerState::Waiting(now + 5));
    assert_eq!(manager.drive_shared(&mut timer, TimerEvent::Woke), Some(TimerAction::Deliver));
    assert_eq!(timer.state, TimerState::Firing);
    assert_eq!(manager.drive_shared(&mut timer, TimerEvent::Found(true)), Some(TimerAction::Ignore));
    assert_eq!(manager.drive_shared(&mut timer, TimerEvent::Delivered), None);
    assert_eq!(timer.state, TimerState::Firing);
    assert!(manager.has_reminder(9, id));
    assert_eq!(manager.drive(&mut timer, TimerEvent::Delivered), TimerAction::Retire);
    assert_eq!(timer.state, TimerState::Terminal);
    assert!(!manager.has_reminder(9, id));
    assert_eq!(manager.drive_shared(&mut timer, TimerEvent::Woke), Some(TimerAction::Ignore));
}

#[test]
fn drive_shared_finds_a_removed_reminder_gone() {
    let mut manager = manager();
    let mut timer = manager.add_reminder(9, scheduled("ping", "0 30 9 * * * *"));
    let id = timer.key;
    assert_eq!(
        manager.drive_shared(&mut timer, TimerEvent::Clock(1609459200)),
        Some(TimerAction::Sleep(34200))
    );
    manager.remove_reminder(9, id);
    let later = manager.add_reminder(9, scheduled("other", "0 30 9 * * * *"));
    assert_ne!(later.key, id);
    assert_eq!(manager.drive_shared(&mut timer, TimerEvent::Woke), Some(TimerAction::Stop));
    assert_eq!(timer.state, TimerState::Terminal);
    assert!(manager.has_reminder(9, later.key));
}

#[test]
fn drive_shared_leaves_an_exhausted_schedule_to_drive() {
    let mut manager = manager();
    let mut timer = manager.add_reminder(9, scheduled("ping", "0 0 0 1 1 ? 1999"));
    assert_eq!(manager.drive_shared(&mut timer, TimerEvent::Clock(1609459200)), None);
    assert_eq!(timer.state, TimerState::Computing);
    assert!(manager.has_reminder(9, timer.key));
}

#[test]
fn drive_takes_no_report_on_the_store() {
    let mut manager = manager();
    let mut timer = manager.add_reminder(9, once("ping", 50));
    manager.drive(&mut timer, TimerEvent::Clock(20));
    timer.step(TimerEvent::Woke);
    assert_eq!(timer.state, TimerState::Verifying);
    assert_eq!(manager.drive(&mut timer, TimerEvent::Found(true)), TimerAction::Ignore);
    assert_eq!(timer.state, TimerState::Verifying);
}

#[test]
fn timer_keeps_the_zone_it_was_started_with() {
    let mut manager = manager();
    manager.set_channel_tz(9, "Europe/Berlin").expect("a zone");
    let mut timer = manager.add_reminder(9, scheduled("ping", "0 30 9 * * * *"));
    assert_eq!(timer.tz.name(), "Europe/Berlin");
    manager.set_channel_tz(9, "Asia/Tokyo").expect("a zone");
    assert_eq!(manager.drive(&mut timer, TimerEvent::Clock(1609459200)), TimerAction::Sleep(30600));
    assert_eq!(manager.channel_tz(9).expect("a zone").name(), "Asia/Tokyo");
}

#[test]
fn add_reminder_makes_the_channel_in_utc() {
    let mut manager = manager();
    assert!(manager.channel_tz(9).is_none());
    assert!(manager.channel_data(9).is_none());
    let timer = manager.add_reminder(9, once("ping", 50));
    assert_eq!(timer.tz.name(), "Etc/UTC");
    assert_eq!(timer.channel_id, 9);
    assert_eq!(timer.state, TimerState::Computing);
    assert_eq!(manager.channel_tz(9).expect("a zone").name(), "Etc/UTC");
    assert_eq!(manager.channel_data(9).expect("a channel").len(), 1);
    assert!(manager.db().has_reminder(9, timer.key));
}

#[test]
fn invalid_zone_is_refused_and_the_zone_stays() {
    let mut manager = manager();
    let refused = manager.set_channel_tz(9, "Invalid/Zone").expect_err("no zone");
    assert_eq!(refused.name, "Invalid/Zone");
    assert!(manager.channel_tz(9).is_none());
    manager.set_channel_tz(9, "Europe/Berlin").expect("a zone");
    assert!(manager.set_channel_tz(9, "Invalid/Zone").is_err());
    assert_eq!(manager.channel_tz(9).expect("a zone").name(), "Europe/Berlin");
}

#[test]
fn start_reminders_makes_a_timer_for_each_reminder() {
    let mut first = manager();
    first.set_channel_tz(1, "Europe/Berlin").expect("a zone");
    first.add_reminder(1, once("a", 1));
    first.add_reminder(1, scheduled("b", "0 30 9 * * * *"));
    first.add_reminder(2, once("c", 3));
    let second = Manager::with_file(&first.db().persist());
    let timers = second.start_reminders();
    assert_eq!(timers.len(), 3);
    let mut seen: Vec<(u64, String, String)> = timers
        .iter()
        .map(|t| (t.channel_id, t.tz.name().to_string(), t.reminder.msg.clone()))
        .collect();
    seen.sort();
    assert_eq!(
        seen,
        vec![
            (1, "Europe/Berlin".to_string(), "a".to_string()),
            (1, "Europe/Berlin".to_string(), "b".to_string()),
            (2, "Etc/UTC".to_string(), "c".to_string()),
        ]
    );
    for timer in &timers {
        assert_eq!(timer.state, TimerState::Computing);
        assert!(second.has_reminder(timer.channel_id, timer.key));
    }
}

#[test]
fn start_reminding_makes_a_timer() {
    let manager = manager();
    let timer = manager.start_reminding(
        4,
        Timezone::utc(),
        ReminderId::from_raw(4294967297),
        once("ping", 50),
    );
    assert_eq!(timer.state, TimerState::Computing);
    assert_eq!(timer.channel_id, 4);
}
