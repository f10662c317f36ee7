//! The command that lists the reminders of a channel: `list`.

use crate::commands::command::{Command, CommandForm, CommandFormView, Invocation, Outcome};
use crate::commands::menu::{menu_shown, show_menu};
use crate::db::{channel_of, DbView};
use crate::manager::Manager;
use crate::reminder::{KindView, Reminder, ReminderType, ReminderView};
use crate::text::str_eq;
use crate::zone::{has_date, rfc2822, rfc2822_text, Timezone, FIRST_DATE, LAST_DATE};
use vstd::prelude::*;

verus! {

/// When a reminder of kind `kind` is due, as the list words it: the
/// expression of a schedule, and for a reminder that is due once the date of
/// its instant in the zone `tz`, or nothing where the year cannot be written
/// out.
pub open spec fn when_text(kind: KindView, tz: Seq<char>) -> Seq<char> {
    match kind {
        KindView::Scheduled(expr) => expr,
        KindView::Once(at) => if has_date(at) {
            rfc2822_text(at, tz)
        } else {
            Seq::empty()
        },
    }
}

/// The line of the list for `reminder`.
pub open spec fn list_line(reminder: ReminderView, tz: Seq<char>) -> Seq<char> {
    when_text(reminder.kind, tz) + " | "@ + reminder.msg
}

/// The lines for `reminders`, one below the other.
pub open spec fn list_lines(reminders: Seq<ReminderView>, tz: Seq<char>) -> Seq<char>
    decreases reminders.len(),
{
    if reminders.len() == 0 {
        Seq::empty()
    } else if reminders.len() == 1 {
        list_line(reminders[0], tz)
    } else {
        list_lines(reminders.drop_last(), tz) + "\n"@ + list_line(reminders.last(), tz)
    }
}

/// The list of a channel whose reminders, in the order of their slots, are
/// `reminders`.
pub open spec fn list_text(reminders: Seq<ReminderView>, tz: Seq<char>) -> Seq<char> {
    if reminders.len() > 0 {
        list_lines(reminders, tz)
    } else {
        "no reminders"@
    }
}

/// The command that lists the reminders of a channel.
pub struct List;

impl List {
    /// The line of the list for `reminder`.
    fn line(reminder: &Reminder, tz: &Timezone) -> (line: String)
        ensures
            line@ == list_line(reminder@, tz@),
    {
        let mut line = match &reminder.reminder_type {
            ReminderType::Scheduled(schedule) => schedule.source().to_owned(),
            ReminderType::Once(at) => {
                if FIRST_DATE <= *at && *at <= LAST_DATE {
                    rfc2822(*at, tz.name())
                } else {
                    String::new()
                }
            },
        };
        line.append(" | ");
        line.append(reminder.msg.as_str());
        line
    }

    /// The reminders of channel `channel_id` as text, a line for each with
    /// when it is due and its message; `no reminders` where there are none.
    pub fn listing(manager: &Manager, channel_id: u64) -> (text: String)
        ensures
            exists|reminders: Seq<ReminderView>|
                crate::reminder::lists(channel_of(manager@, channel_id).reminders, reminders)
                    && text@ == #[trigger] list_text(
                    reminders,
                    channel_of(manager@, channel_id).tz,
                ),
    {
        match manager.channel_data(channel_id) {
            Some(channel) => {
                let reminders = channel.reminders();
                let ghost listed = crate::reminder::views(reminders@);
                let tz = channel.tz();
                if reminders.len() == 0 {
                    let text = "no reminders".to_owned();
                    proof {
                        let held = channel_of(manager@, channel_id);
                        assert(text@ == list_text(listed, held.tz));
                    }
                    return text;
                }
                let mut text = List::line(&reminders[0], tz);
                let mut i: usize = 1;
                while i < reminders.len()
                    invariant
                        1 <= i <= reminders.len(),
                        listed == crate::reminder::views(reminders@),
                        text@ == list_lines(listed.take(i as int), tz@),
                    decreases reminders.len() - i,
                {
                    proof {
                        let upto = listed.take(i + 1);
                        assert(upto.drop_last() =~= listed.take(i as int));
                    }
                    text.append("\n");
                    text.append(List::line(&reminders[i], tz).as_str());
                    i = i + 1;
                }
                proof {
                    assert(listed.take(i as int) =~= listed);
                    let held = channel_of(manager@, channel_id);
                    assert(text@ == list_text(listed, held.tz));
                }
                text
            },
            None => {
                let text = "no reminders".to_owned();
                proof {
                    let none = Seq::<ReminderView>::empty();
                    let ids = Seq::<u64>::empty();
                    assert(ids.to_set() =~= Set::<u64>::empty());
                    assert(crate::reminder::holds_exactly(
                        channel_of(manager@, channel_id).reminders,
                        ids,
                        none,
                    ));
                    assert(text@ == list_text(none, channel_of(manager@, channel_id).tz));
                }
                text
            },
        }
    }

}

impl Command for List {
    open spec fn named(&self) -> Seq<char> {
        "list"@
    }

    open spec fn offers(&self, before: CommandFormView) -> CommandFormView {
        CommandFormView {
            name: "list"@,
            description: "Lists all reminders for this channel"@,
            ..before
        }
    }

    open spec fn handles(
        &self,
        before: DbView,
        call: Invocation,
        now: i64,
        after: DbView,
        outcome: Outcome,
    ) -> bool {
        menu_shown(before, call, now, after, outcome)
    }

    fn name(&self) -> (name: &str) {
        "list"
    }

    fn can_handle(&self, name: &str) -> (can: bool) {
        str_eq(name, "list")
    }

    fn create(&self, command: &mut CommandForm) {
        command.name("list");
        command.description("Lists all reminders for this channel");
    }

    /// Answers with the message that shows the menu of the channel of the
    /// call.
    fn handle(&self, manager: &mut Manager, command: &Invocation, now: i64) -> (outcome: Outcome) {
        show_menu(manager, command, now)
    }
}

} // verus!
