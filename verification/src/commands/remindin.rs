//! The command that sets a reminder which is due after a delay: `remindin`.

use crate::commands::command::{
    chosen_integer, chosen_text, ignored, number_option, text_option, Answer, Command,
    CommandForm, CommandFormView, FormOptionView, Invocation, OptionKind, Options, OptionsView,
    Outcome,
};
use crate::commands::remind::started;
use crate::db::{has_room, DbView};
use crate::manager::Manager;
use crate::reminder::{KindView, Reminder, ReminderType, ReminderView};
use crate::text::str_eq;
use vstd::prelude::*;

verus! {

/// The options that the command takes: the message, and the minutes, hours and
/// days of the delay.
pub open spec fn delay_options() -> Seq<FormOptionView> {
    seq![
        text_option("msg"@, "Message to be sent"@, true),
        number_option("mins"@, "Minutes"@),
        number_option("hours"@, "Hours"@),
        number_option("days"@, "Days"@),
    ]
}

/// The number under `name` in `options`; zero where there is none.
pub open spec fn or_zero(options: OptionsView, name: Seq<char>) -> int {
    match chosen_integer(options, name) {
        Some(number) => number as int,
        None => 0,
    }
}

/// The delay that `options` spell, in minutes.
pub open spec fn delay_minutes(options: OptionsView) -> int {
    or_zero(options, "mins"@) + 60 * (or_zero(options, "hours"@) + 24 * or_zero(options, "days"@))
}

/// The instant that lies the delay of `options` after `now`.
pub open spec fn delayed(options: OptionsView, now: i64) -> int {
    now + 60 * delay_minutes(options)
}

/// Whether `call` has at `now` what the command needs: a message, a delay
/// that leads to an instant which can be named, and room in the channel.
pub open spec fn can_delay(store: DbView, call: Invocation, now: i64) -> bool {
    &&& chosen_text(call.options@, "msg"@) is Some
    &&& i64::MIN <= delayed(call.options@, now) <= i64::MAX
    &&& has_room(store, call.channel_id)
}

/// Whether `call` at `now` made `after` of `before` with the outcome
/// `outcome`: a reminder with the message of the call, due once when the delay
/// has passed, is stored, its timer is started and the answer is `done`. A
/// call that lacks what the command needs is ignored.
pub open spec fn delayed_reminder(
    before: DbView,
    call: Invocation,
    now: i64,
    after: DbView,
    outcome: Outcome,
) -> bool {
    if can_delay(before, call, now) {
        &&& outcome.answer matches Answer::Content(content)
        &&& content@ == "done"@
        &&& outcome.persist
        &&& outcome.timer matches Some(timer)
        &&& started(
            before,
            call.channel_id,
            ReminderView {
                kind: KindView::Once(delayed(call.options@, now) as i64),
                msg: chosen_text(call.options@, "msg"@)->0,
            },
            after,
            timer,
        )
    } else {
        ignored(before, after, outcome)
    }
}

/// The command that sets a reminder which is due after a delay.
pub struct RemindIn;

impl RemindIn {
    /// The instant that lies the delay of `options` after `now`, where it is
    /// one that an instant can name.
    pub fn fire_at(options: &Options, now: i64) -> (at: Option<i64>)
        ensures
            match at {
                Some(at) => at == delayed(options@, now),
                None => delayed(options@, now) < i64::MIN || delayed(options@, now) > i64::MAX,
            },
    {
        let mins: i128 = match options.integer("mins") {
            Some(number) => number as i128,
            None => 0,
        };
        let hours: i128 = match options.integer("hours") {
            Some(number) => number as i128,
            None => 0,
        };
        let days: i128 = match options.integer("days") {
            Some(number) => number as i128,
            None => 0,
        };
        let minutes: i128 = mins + 60 * (hours + 24 * days);
        let at: i128 = now as i128 + 60 * minutes;
        if at < i64::MIN as i128 || at > i64::MAX as i128 {
            None
        } else {
            Some(at as i64)
        }
    }
}

impl Command for RemindIn {
    open spec fn named(&self) -> Seq<char> {
        "remindin"@
    }

    open spec fn offers(&self, before: CommandFormView) -> CommandFormView {
        CommandFormView {
            description: "Sends delayed message"@,
            options: before.options + delay_options(),
            ..before
        }
    }

    open spec fn handles(
        &self,
        before: DbView,
        call: Invocation,
        now: i64,
        after: DbView,
        outcome: Outcome,
    ) -> bool {
        delayed_reminder(before, call, now, after, outcome)
    }

    fn name(&self) -> (name: &str) {
        "remindin"
    }

    fn can_handle(&self, name: &str) -> (can: bool) {
        str_eq(name, "remindin")
    }

    fn create(&self, command: &mut CommandForm) {
        command.description("Sends delayed message");
        command.create_option("msg", "Message to be sent", OptionKind::String, true);
        command.create_option("mins", "Minutes", OptionKind::Integer, false);
        command.create_option("hours", "Hours", OptionKind::Integer, false);
        command.create_option("days", "Days", OptionKind::Integer, false);
        assert(command@.options =~= old(command)@.options + delay_options());
    }

    /// Stores in the channel of the call a reminder with the message of the
    /// call, due once when the delay has passed, and answers `done`. A call
    /// without a message, with a delay that leads to no instant, or for a
    /// channel without room is ignored.
    fn handle(&self, manager: &mut Manager, command: &Invocation, now: i64) -> (outcome: Outcome) {
        let msg = match command.options.text("msg") {
            Some(msg) => msg.to_owned(),
            None => {
                return Outcome::nothing();
            },
        };
        let later = match RemindIn::fire_at(&command.options, now) {
            Some(at) => at,
            None => {
                return Outcome::nothing();
            },
        };
        if !manager.has_room(command.channel_id) {
            return Outcome::nothing();
        }
        let timer = manager.add_reminder(
            command.channel_id,
            Reminder { reminder_type: ReminderType::Once(later), msg },
        );
        Outcome { answer: Answer::Content("done".to_owned()), timer: Some(timer), persist: true }
    }
}

} // verus!
