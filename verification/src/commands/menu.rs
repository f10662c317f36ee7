//! The command that shows the reminders of a channel: `menu`.

use crate::commands::command::{
    Answer, Command, CommandForm, CommandFormView, Invocation, Outcome,
};
use crate::db::{channel_of, DbView};
use crate::manager::Manager;
use crate::reminder::{holds_exactly, ChannelView};
use crate::reminder_menu::{menu_message, ReminderMenu, ReminderMenuView};
use crate::text::str_eq;
use vstd::prelude::*;

verus! {

/// Whether `menu` is the menu of a channel that stands for `channel`, with
/// nothing picked: it has the channel's zone and exactly its reminders, each
/// with its handle.
pub open spec fn menu_of(channel: ChannelView, menu: ReminderMenuView) -> bool {
    &&& menu.tz == channel.tz
    &&& menu.selected is None
    &&& holds_exactly(
        channel.reminders,
        Seq::new(menu.reminders.len(), |i: int| menu.reminders[i].0),
        Seq::new(menu.reminders.len(), |i: int| menu.reminders[i].1),
    )
}

/// Whether `call` at `now` left the store as it was and was answered with the
/// message that shows the menu of the channel, without a timer.
pub open spec fn menu_shown(
    before: DbView,
    call: Invocation,
    now: i64,
    after: DbView,
    outcome: Outcome,
) -> bool {
    &&& after == before
    &&& outcome.timer is None
    &&& !outcome.persist
    &&& outcome.answer matches Answer::Message(message)
    &&& exists|menu: ReminderMenuView|
        menu_of(channel_of(before, call.channel_id), menu) && message@ == #[trigger] menu_message(
            menu,
            now,
        )
}

/// Shows the menu of the channel of `command` at `now`.
pub fn show_menu(manager: &Manager, command: &Invocation, now: i64) -> (outcome: Outcome)
    ensures
        menu_shown(manager@, *command, now, manager@, outcome),
{
    let menu = ReminderMenu::new(manager, command.channel_id);
    let message = menu.create(now);
    assert(menu_of(channel_of(manager@, command.channel_id), menu@) && message@ == menu_message(
        menu@,
        now,
    ));
    Outcome { answer: Answer::Message(message), timer: None, persist: false }
}

/// The command that shows the reminders of a channel.
pub struct Menu;

impl Command for Menu {
    open spec fn named(&self) -> Seq<char> {
        "menu"@
    }

    open spec fn offers(&self, before: CommandFormView) -> CommandFormView {
        CommandFormView {
            name: "menu"@,
            description: "Show all reminders for this channel"@,
            ..before
        }
    }

    open spec fn handles(
        &self,
        before: DbView,
        call: Invocation,
        now: i64,
        after: DbView,
        outcome: Outcome,
    ) -> bool {
        menu_shown(before, call, now, after, outcome)
    }

    fn name(&self) -> (name: &str) {
        "menu"
    }

    fn can_handle(&self, name: &str) -> (can: bool) {
        str_eq(name, "menu")
    }

    fn create(&self, command: &mut CommandForm) {
        command.name("menu");
        command.description("Show all reminders for this channel");
    }

    /// Answers with the message that shows the menu of the channel of the
    /// call.
    fn handle(&self, manager: &mut Manager, command: &Invocation, now: i64) -> (outcome: Outcome) {
        show_menu(manager, command, now)
    }
}

} // verus!
