use reminders::commands::command::{Answer, Command, Invocation, Options, Outcome};
use reminders::commands::list::List;
use reminders::commands::menu::Menu;
use reminders::manager::Manager;
use reminders::message::{ButtonStyle, MessageForm};
use reminders::reminder::{Reminder, ReminderId, ReminderType};
use reminders::reminder_menu::{Component, ComponentType, ReminderMenu};
use reminders::schedule::Schedule;

fn manager() -> Manager {
    Manager::with_file(&Vec::new())
}

fn once(msg: &str, at: i64) -> Reminder {
    Reminder { reminder_type: ReminderType::Once(at), msg: msg.to_string() }
}

fn scheduled(msg: &str, expr: &str) -> Reminder {
    let schedule = Schedule::from_str(expr).expect("a schedule");
    Reminder { reminder_type: ReminderType::Scheduled(schedule), msg: msg.to_string() }
}

fn pick(values: &[&str]) -> Component {
    Component {
        component_type: ComponentType::SelectMenu,
        custom_id: "reminders".to_string(),
        values: values.iter().map(|v| v.to_string()).collect(),
    }
}

fn press(custom_id: &str) -> Component {
    Component {
        component_type: ComponentType::Button,
        custom_id: custom_id.to_string(),
        values: Vec::new(),
    }
}

fn entries(message: &MessageForm) -> Vec<(&str, &str, &str, bool)> {
    message
        .options
        .iter()
        .map(|o| (o.label.as_str(), o.description.as_str(), o.value.as_str(), o.default_selection))
        .collect()
}

fn buttons(message: &MessageForm) -> Vec<(ButtonStyle, &str, &str, bool)> {
    message
        .buttons
        .iter()
        .map(|b| (b.style, b.label.as_str(), b.custom_id.as_str(), b.disabled))
        .collect()
}

#[test]
fn plain_message_has_text_alone() {
    let message = MessageForm::plain("done");
    assert_eq!(message.content, "done");
    assert!(message.options.is_empty());
    assert!(message.buttons.is_empty());
}

#[test]
fn menu_of_a_missing_channel_has_no_reminders() {
    let manager = manager();
    let menu = ReminderMenu::new(&manager, 3);
    let message = menu.create(0);
    assert_eq!(message.content, "no reminders");
    assert!(message.options.is_empty());
    assert!(message.buttons.is_empty());
}

#[test]
fn menu_lists_the_reminders_with_their_next_date() {
    let mut manager = manager();
    manager.set_channel_tz(3, "Europe/Berlin").expect("a zone");
    manager.add_reminder(3, once("tea", 1609493400));
    manager.add_reminder(3, scheduled("stand up", "0 30 9 * * * *"));
    manager.add_reminder(3, scheduled("late", "0 0 0 1 1 ? 1999"));
    manager.add_reminder(3, once("never", i64::MAX));
    let message = ReminderMenu::new(&manager, 3).create(1609459200);
    assert_eq!(message.content, "Channel timezone: Europe/Berlin");
    assert_eq!(
        entries(&message),
        vec![
            ("tea", "Fri, 1 Jan 2021 10:30:00 +0100", "{\"idx\":1,\"version\":1}", false),
            ("stand up", "Fri, 1 Jan 2021 09:30:00 +0100", "{\"idx\":2,\"version\":1}", false),
            ("late", "", "{\"idx\":3,\"version\":1}", false),
            ("never", "", "{\"idx\":4,\"version\":1}", false),
        ]
    );
    assert_eq!(
        buttons(&message),
        vec![
            (ButtonStyle::Secondary, "Done", "done", false),
            (ButtonStyle::Danger, "Delete", "delete", true),
        ]
    );
}

#[test]
fn pick_marks_the_entry_and_arms_the_delete_button() {
    let mut manager = manager();
    manager.add_reminder(3, once("a", 10));
    manager.add_reminder(3, once("b", 20));
    let mut menu = ReminderMenu::new(&manager, 3);
    let message = menu.handle(&mut manager, 3, &pick(&["{\"idx\":2,\"version\":1}", "ignored"]), 0);
    let marked: Vec<(&str, bool)> =
        message.options.iter().map(|o| (o.label.as_str(), o.default_selection)).collect();
    assert_eq!(marked, vec![("a", false), ("b", true)]);
    assert_eq!(
        buttons(&message),
        vec![
            (ButtonStyle::Secondary, "Done", "done", false),
            (ButtonStyle::Danger, "Delete", "{\"idx\":2,\"version\":1}", false),
        ]
    );
    assert_eq!(manager.channel_data(3).expect("a channel").len(), 2);
    let message = menu.handle(&mut manager, 3, &pick(&[]), 0);
    assert_eq!(buttons(&message)[1], (ButtonStyle::Danger, "Delete", "delete", true));
}

#[test]
fn delete_press_removes_the_reminder_from_menu_and_store() {
    let mut manager = manager();
    let a = manager.add_reminder(3, once("a", 10)).key;
    let b = manager.add_reminder(3, once("b", 20)).key;
    let mut menu = ReminderMenu::new(&manager, 3);
    menu.handle(&mut manager, 3, &pick(&["{\"idx\":2,\"version\":1}"]), 0);
    let message = menu.handle(&mut manager, 3, &press("{\"idx\":2,\"version\":1}"), 0);
    assert_eq!(message.content, "Channel timezone: Etc/UTC");
    let labels: Vec<&str> = message.options.iter().map(|o| o.label.as_str()).collect();
    assert_eq!(labels, vec!["a"]);
    assert_eq!(buttons(&message)[1], (ButtonStyle::Danger, "Delete", "delete", true));
    assert!(manager.has_reminder(3, a));
    assert!(!manager.has_reminder(3, b));
    assert_eq!(b, ReminderId::from_raw(4294967298));
    let message = menu.handle(&mut manager, 3, &press("{\"idx\":1,\"version\":1}"), 0);
    assert_eq!(message.content, "no reminders");
    assert!(message.buttons.is_empty());
    assert!(!manager.has_reminder(3, a));
}

#[test]
fn only_a_press_that_spells_a_handle_asks_for_a_deletion() {
    assert!(ReminderMenu::deletes(&press("{\"idx\":1,\"version\":1}")));
    assert!(ReminderMenu::deletes(&press("{\"idx\":7,\"version\":3}")));
    assert!(!ReminderMenu::deletes(&press("done")));
    assert!(!ReminderMenu::deletes(&press("delete")));
    assert!(!ReminderMenu::deletes(&press("")));
    assert!(!ReminderMenu::deletes(&pick(&["{\"idx\":1,\"version\":1}"])));
}

#[test]
fn the_value_of_each_entry_deletes_that_entry() {
    let mut manager = manager();
    let gone = manager.add_reminder(3, once("gone", 5)).key;
    manager.remove_reminder(3, gone);
    let a = manager.add_reminder(3, once("a", 10)).key;
    let b = manager.add_reminder(3, once("b", 20)).key;
    let c = manager.add_reminder(3, once("c", 30)).key;
    let mut menu = ReminderMenu::new(&manager, 3);
    let message = menu.create(0);
    let values: Vec<String> = message.options.iter().map(|o| o.value.clone()).collect();
    let labels: Vec<&str> = message.options.iter().map(|o| o.label.as_str()).collect();
    assert_eq!(labels, vec!["a", "b", "c"]);
    assert_eq!(values[0], "{\"idx\":1,\"version\":3}");
    let message = menu.handle(&mut manager, 3, &press(&values[1]), 0);
    let labels: Vec<&str> = message.options.iter().map(|o| o.label.as_str()).collect();
    assert_eq!(labels, vec!["a", "c"]);
    assert!(manager.has_reminder(3, a) && !manager.has_reminder(3, b) && manager.has_reminder(3, c));
    let message = menu.handle(&mut manager, 3, &press(&values[1]), 0);
    assert_eq!(message.options.len(), 2);
    assert!(manager.has_reminder(3, a) && manager.has_reminder(3, c));
}

#[test]
fn done_press_ends_the_menu() {
    let mut manager = manager();
    let a = manager.add_reminder(3, once("a", 10)).key;
    let mut menu = ReminderMenu::new(&manager, 3);
    let message = menu.handle(&mut manager, 3, &press("done"), 0);
    assert_eq!(message.content, "done");
    assert!(message.options.is_empty());
    assert!(message.buttons.is_empty());
    assert!(manager.has_reminder(3, a));
}

#[test]
fn press_that_spells_no_handle_changes_nothing() {
    let mut manager = manager();
    let a = manager.add_reminder(3, once("a", 10)).key;
    let mut menu = ReminderMenu::new(&manager, 3);
    menu.handle(&mut manager, 3, &pick(&["{\"idx\":1,\"version\":1}"]), 0);
    for custom_id in ["delete", "", "{\"idx\":1}", "4294967297"] {
        let message = menu.handle(&mut manager, 3, &press(custom_id), 0);
        assert_eq!(message.options.len(), 1);
        assert!(message.options[0].default_selection);
        assert!(manager.has_reminder(3, a));
    }
    let message = menu.handle(&mut manager, 3, &press("{\"idx\":9,\"version\":1}"), 0);
    assert_eq!(message.options.len(), 1);
    assert!(!message.options[0].default_selection);
    assert!(manager.has_reminder(3, a));
}

#[test]
fn other_component_shows_the_menu_again() {
    let mut manager = manager();
    manager.add_reminder(3, once("a", 10));
    let mut menu = ReminderMenu::new(&manager, 3);
    let component = Component {
        component_type: ComponentType::Other,
        custom_id: "done".to_string(),
        values: vec!["x".to_string()],
    };
    let message = menu.handle(&mut manager, 3, &component, 0);
    assert_eq!(message.content, "Channel timezone: Etc/UTC");
    assert_eq!(message.options.len(), 1);
}

fn shown(outcome: &Outcome) -> &MessageForm {
    match &outcome.answer {
        Answer::Message(message) => message,
        other => panic!("a message was expected, not {:?}", other),
    }
}

#[test]
fn menu_and_list_commands_show_the_same_message() {
    let mut manager = manager();
    manager.add_reminder(3, once("a", 10));
    let call = Invocation { name: "menu".to_string(), channel_id: 3, options: Options::new() };
    let from_menu = Menu.handle(&mut manager, &call, 0);
    let from_list = List.handle(&mut manager, &call, 0);
    assert!(from_menu.timer.is_none() && from_list.timer.is_none());
    assert_eq!(shown(&from_menu).content, shown(&from_list).content);
    assert_eq!(entries(shown(&from_menu)), entries(shown(&from_list)));
    assert_eq!(
        entries(shown(&from_menu)),
        vec![("a", "Thu, 1 Jan 1970 00:00:10 +0000", "{\"idx\":1,\"version\":1}", false)]
    );
    assert_eq!(manager.channel_data(3).expect("a channel").len(), 1);
}
