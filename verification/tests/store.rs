use reminders::db::Db;
use reminders::reminder::{ChannelData, Reminder, ReminderId, ReminderType};
use reminders::schedule::Schedule;
use reminders::zone::Timezone;

fn once(msg: &str, at: i64) -> Reminder {
    Reminder { reminder_type: ReminderType::Once(at), msg: msg.to_string() }
}

fn scheduled(msg: &str, expr: &str) -> Reminder {
    let schedule = Schedule::from_str(expr).expect("a schedule");
    Reminder { reminder_type: ReminderType::Scheduled(schedule), msg: msg.to_string() }
}

fn kind_of(reminder: &Reminder) -> String {
    match &reminder.reminder_type {
        ReminderType::Once(at) => format!("once {}", at),
        ReminderType::Scheduled(schedule) => format!("scheduled {}", schedule.source()),
    }
}

#[test]
fn new_store_has_no_channels() {
    let db = Db::new();
    assert!(db.channels().is_empty());
    assert!(db.iter().is_empty());
    assert!(db.persist().is_empty());
    assert!(db.tz(1).is_none());
    assert!(db.channel_data(1).is_none());
    assert!(!db.has_reminder(1, ReminderId::from_raw(4294967297)));
}

#[test]
fn insert_makes_the_channel_in_utc() {
    let mut db = Db::new();
    let id = db.insert(7, once("ping", 10));
    assert!(db.has_reminder(7, id));
    assert_eq!(db.channels(), vec![7]);
    assert_eq!(db.tz(7).expect("a zone").name(), "Etc/UTC");
    let channel = db.channel_data(7).expect("a channel");
    assert_eq!(channel.len(), 1);
    let held = channel.get(id).expect("a reminder");
    assert_eq!(held.msg, "ping");
    assert_eq!(kind_of(held), "once 10");
}

#[test]
fn first_handle_is_slot_one_version_one() {
    let mut db = Db::new();
    let id = db.insert(7, once("ping", 10));
    assert_eq!(id.number(), 4294967297);
    assert_eq!(id, ReminderId::from_raw(4294967297));
    assert_eq!(id, ReminderId::from_raw(1));
}

#[test]
fn handles_of_live_reminders_differ() {
    let mut db = Db::new();
    let a = db.insert(7, once("a", 1));
    let b = db.insert(7, once("b", 2));
    let c = db.insert(7, once("c", 3));
    assert_ne!(a, b);
    assert_ne!(a, c);
    assert_ne!(b, c);
    assert_eq!(db.channel_data(7).expect("a channel").len(), 3);
}

#[test]
fn a_freed_slot_gets_a_new_handle() {
    let mut db = Db::new();
    let a = db.insert(7, once("a", 1));
    db.remove(7, a);
    let b = db.insert(7, once("b", 2));
    assert_ne!(a, b);
    assert!(!db.has_reminder(7, a));
    assert!(db.has_reminder(7, b));
    assert_eq!(db.channel_data(7).expect("a channel").get(b).expect("a reminder").msg, "b");
}

#[test]
fn a_retired_handle_is_not_given_out_again() {
    let mut db = Db::new();
    let keep = db.insert(7, once("keep", 0));
    let mut retired: Vec<ReminderId> = Vec::new();
    for round in 0..500 {
        let id = db.insert(7, once("a", round));
        assert!(!retired.contains(&id));
        assert_ne!(id, keep);
        for old in &retired {
            assert!(!db.has_reminder(7, *old));
        }
        db.remove(7, id);
        assert!(!db.has_reminder(7, id));
        retired.push(id);
    }
    db.set_tz(7, "Asia/Tokyo").expect("a zone");
    let last = db.insert(7, once("last", 1));
    assert!(!retired.contains(&last));
    for old in &retired {
        assert!(!db.has_reminder(7, *old));
    }
    assert!(db.has_reminder(7, keep));
    assert!(db.has_reminder(7, last));
    assert_eq!(db.channel_data(7).expect("a channel").len(), 2);
}

#[test]
fn a_freed_slot_is_used_again_under_its_next_version() {
    let mut db = Db::new();
    let a = db.insert(7, once("a", 1));
    db.remove(7, a);
    let b = db.insert(7, once("b", 2));
    assert_eq!(a.number(), 4294967296 + 1);
    assert_eq!(b.number(), 3 * 4294967296 + 1);
}

#[test]
fn persist_and_open_go_together() {
    let mut db = Db::new();
    for at in 0..20 {
        db.insert(at % 3, once("x", at as i64));
    }
    let again = Db::open(&db.persist());
    let mut channels = again.channels();
    channels.sort();
    assert_eq!(channels, vec![0, 1, 2]);
    assert_eq!(again.iter().len(), 20);
}

#[test]
fn handles_belong_to_their_channel() {
    let mut db = Db::new();
    let a = db.insert(1, once("a", 1));
    assert!(db.has_reminder(1, a));
    assert!(!db.has_reminder(2, a));
    let b = db.insert(2, once("b", 2));
    assert_eq!(a, b);
    db.remove(2, b);
    assert!(db.has_reminder(1, a));
    assert!(!db.has_reminder(2, b));
}

#[test]
fn removed_reminder_is_gone_and_removal_repeats() {
    let mut db = Db::new();
    let keep = db.insert(7, once("keep", 1));
    let id = db.insert(7, once("ping", 10));
    db.remove(7, id);
    assert!(!db.has_reminder(7, id));
    assert!(db.has_reminder(7, keep));
    db.remove(7, id);
    assert!(!db.has_reminder(7, id));
    assert!(db.has_reminder(7, keep));
    assert_eq!(db.channel_data(7).expect("a channel").len(), 1);
}

#[test]
fn removal_from_a_missing_channel_makes_no_channel() {
    let mut db = Db::new();
    db.remove(9, ReminderId::from_raw(4294967297));
    assert!(db.channels().is_empty());
    assert!(db.channel_data(9).is_none());
}

#[test]
fn removing_the_last_reminder_keeps_the_channel() {
    let mut db = Db::new();
    db.set_tz(7, "Europe/Berlin").expect("a zone");
    let id = db.insert(7, once("ping", 10));
    db.remove(7, id);
    assert_eq!(db.channels(), vec![7]);
    assert_eq!(db.tz(7).expect("a zone").name(), "Europe/Berlin");
    assert_eq!(db.channel_data(7).expect("a channel").len(), 0);
}

#[test]
fn set_tz_makes_the_channel() {
    let mut db = Db::new();
    assert!(db.set_tz(3, "Europe/Berlin").is_ok());
    assert_eq!(db.tz(3).expect("a zone").name(), "Europe/Berlin");
    assert_eq!(db.channel_data(3).expect("a channel").len(), 0);
}

#[test]
fn set_tz_keeps_the_reminders() {
    let mut db = Db::new();
    let id = db.insert(3, once("ping", 10));
    assert!(db.set_tz(3, "Asia/Tokyo").is_ok());
    assert_eq!(db.tz(3).expect("a zone").name(), "Asia/Tokyo");
    assert!(db.has_reminder(3, id));
}

#[test]
fn invalid_zone_leaves_a_missing_channel_missing() {
    let mut db = Db::new();
    let refused = db.set_tz(3, "Invalid/Zone").expect_err("no zone");
    assert_eq!(refused.name, "Invalid/Zone");
    assert!(db.tz(3).is_none());
    assert!(db.channels().is_empty());
}

#[test]
fn invalid_zone_leaves_the_zone_as_it_was() {
    let mut db = Db::new();
    db.set_tz(3, "Europe/Berlin").expect("a zone");
    let id = db.insert(3, once("ping", 10));
    assert!(db.set_tz(3, "Invalid/Zone").is_err());
    assert!(db.set_tz(3, "europe/berlin").is_err());
    assert!(db.set_tz(3, "").is_err());
    assert_eq!(db.tz(3).expect("a zone").name(), "Europe/Berlin");
    assert!(db.has_reminder(3, id));
}

#[test]
fn iter_walks_every_reminder_once() {
    let mut db = Db::new();
    db.set_tz(1, "Europe/Berlin").expect("a zone");
    let a = db.insert(1, once("a", 1));
    let b = db.insert(1, scheduled("b", "0 30 9 * * * *"));
    let c = db.insert(2, once("c", 3));
    db.set_tz(5, "Asia/Tokyo").expect("a zone");
    let mut seen: Vec<(u64, String, u64, String, String)> = db
        .iter()
        .iter()
        .map(|(channel, tz, id, reminder)| {
            (*channel, tz.name().to_string(), id.number(), reminder.msg.clone(), kind_of(reminder))
        })
        .collect();
    seen.sort();
    let mut expected = vec![
        (1, "Europe/Berlin".to_string(), a.number(), "a".to_string(), "once 1".to_string()),
        (
            1,
            "Europe/Berlin".to_string(),
            b.number(),
            "b".to_string(),
            "scheduled 0 30 9 * * * *".to_string(),
        ),
        (2, "Etc/UTC".to_string(), c.number(), "c".to_string(), "once 3".to_string()),
    ];
    expected.sort();
    assert_eq!(seen, expected);
}

#[test]
fn persist_keeps_channels_without_reminders() {
    let mut db = Db::new();
    db.set_tz(5, "Asia/Tokyo").expect("a zone");
    let saved = db.persist();
    assert_eq!(saved.len(), 1);
    assert_eq!(saved[0].0, 5);
    assert_eq!(saved[0].1.name(), "Asia/Tokyo");
    assert!(saved[0].2.is_empty());
}

#[test]
fn reopened_store_has_the_same_reminders() {
    let mut db = Db::new();
    db.set_tz(1, "Europe/Berlin").expect("a zone");
    db.insert(1, once("a", 1));
    let gone = db.insert(1, once("gone", 2));
    db.insert(1, scheduled("b", "0 30 9 * * * *"));
    db.insert(1, once("c", 3));
    db.remove(1, gone);
    db.insert(2, once("d", 4));
    let reopened = Db::open(&db.persist());
    let mut channels = reopened.channels();
    channels.sort();
    assert_eq!(channels, vec![1, 2]);
    assert_eq!(reopened.tz(1).expect("a zone").name(), "Europe/Berlin");
    assert_eq!(reopened.tz(2).expect("a zone").name(), "Etc/UTC");
    let channel = reopened.channel_data(1).expect("a channel");
    assert_eq!(channel.len(), 3);
    let mut held: Vec<(String, String)> =
        channel.reminders().iter().map(|r| (r.msg.clone(), kind_of(r))).collect();
    held.sort();
    assert_eq!(
        held,
        vec![
            ("a".to_string(), "once 1".to_string()),
            ("b".to_string(), "scheduled 0 30 9 * * * *".to_string()),
            ("c".to_string(), "once 3".to_string()),
        ]
    );
    let other = reopened.channel_data(2).expect("a channel");
    assert_eq!(other.len(), 1);
    assert_eq!(other.reminders()[0].msg, "d");
}

#[test]
fn open_takes_the_last_record_of_a_channel() {
    let saved = vec![
        (1, Timezone::parse("Europe/Berlin").expect("a zone"), vec![once("a", 1), once("b", 2)]),
        (2, Timezone::utc(), vec![once("c", 3)]),
        (1, Timezone::parse("Asia/Tokyo").expect("a zone"), vec![once("d", 4)]),
    ];
    let db = Db::open(&saved);
    let mut channels = db.channels();
    channels.sort();
    assert_eq!(channels, vec![1, 2]);
    assert_eq!(db.tz(1).expect("a zone").name(), "Asia/Tokyo");
    let channel = db.channel_data(1).expect("a channel");
    assert_eq!(channel.len(), 1);
    assert_eq!(channel.reminders()[0].msg, "d");
}

#[test]
fn open_of_nothing_is_empty() {
    let db = Db::open(&Vec::new());
    assert!(db.channels().is_empty());
}

#[test]
fn channel_from_parts_and_back() {
    let channel = ChannelData::from_parts(
        Timezone::parse("Asia/Tokyo").expect("a zone"),
        &vec![once("a", 1), once("a", 1), once("b", 2)],
    );
    assert_eq!(channel.tz().name(), "Asia/Tokyo");
    assert_eq!(channel.len(), 3);
    let ids = channel.ids();
    assert_eq!(ids.len(), 3);
    assert!(ids[0] != ids[1] && ids[0] != ids[2] && ids[1] != ids[2]);
    for id in &ids {
        assert!(channel.contains(*id));
    }
    let entries = channel.entries();
    let msgs: Vec<&str> = entries.iter().map(|(_, r)| r.msg.as_str()).collect();
    assert_eq!(msgs, vec!["a", "a", "b"]);
    for (id, reminder) in &entries {
        assert_eq!(channel.get(*id).expect("a reminder").msg, reminder.msg);
    }
}

#[test]
fn channel_default_and_set_tz() {
    let mut channel = ChannelData::default();
    assert_eq!(channel.tz().name(), "Etc/UTC");
    assert_eq!(channel.len(), 0);
    assert!(channel.ids().is_empty());
    assert!(channel.set_tz("America/New_York").is_ok());
    assert_eq!(channel.tz().name(), "America/New_York");
    let refused = channel.set_tz("Nowhere").expect_err("no zone");
    assert_eq!(refused.name, "Nowhere");
    assert_eq!(channel.tz().name(), "America/New_York");
    channel.put_tz(Timezone::utc());
    assert_eq!(channel.tz().name(), "Etc/UTC");
}

#[test]
fn channel_insert_get_remove() {
    let mut channel = ChannelData::default();
    let id = channel.insert(once("ping", 5));
    assert!(channel.contains(id));
    assert_eq!(channel.get(id).expect("a reminder").msg, "ping");
    let taken = channel.remove(id).expect("a reminder");
    assert_eq!(taken.msg, "ping");
    assert!(!channel.contains(id));
    assert!(channel.get(id).is_none());
    assert!(channel.remove(id).is_none());
    assert_eq!(channel.len(), 0);
}

#[test]
fn reminder_knows_its_schedule() {
    assert!(once("a", 1).schedule().is_none());
    let reminder = scheduled("b", "0 30 9 * * * *");
    assert_eq!(reminder.schedule().expect("a schedule").source(), "0 30 9 * * * *");
    assert_eq!(reminder.clone().msg, "b");
    assert_eq!(kind_of(&reminder.clone()), "scheduled 0 30 9 * * * *");
}

#[test]
fn small_channels_have_room() {
    let mut db = Db::new();
    assert!(db.has_room(1));
    db.insert(1, once("a", 1));
    assert!(db.has_room(1));
}

#[test]
fn handle_numbers_have_an_odd_version() {
    assert_eq!(ReminderId::from_raw(0).number(), 4294967296);
    assert_eq!(ReminderId::from_raw(4294967297).number(), 4294967297);
    assert_eq!(ReminderId::from_raw(2 * 4294967296 + 5).number(), 3 * 4294967296 + 5);
    let id = ReminderId::from_raw(7);
    assert_eq!(ReminderId::from_raw(id.number()), id);
}
