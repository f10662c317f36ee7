//! The commands that set a reminder by the fields of a cron expression:
//! `remindme`, which repeats, and `remindonce`, which is due once.

use crate::commands::command::{
    all_text, chosen_text, ignored, text_option, Answer, Command, CommandForm, CommandFormView,
    FormOptionView, Invocation, OptionKind, Options, OptionsView, Outcome,
};
use crate::db::{channel_of, has_room, holds, retired, with_reminder, DbView};
use crate::manager::{Manager, Timer, TimerState};
use crate::reminder::{KindView, Reminder, ReminderType, ReminderView};
use crate::schedule::{cron_accepts, Schedule};
use crate::text::str_eq;
use crate::zone::Timezone;
use vstd::prelude::*;

verus! {

/// The options that both commands take: the message, and the fields of the
/// expression from the minute to the year.
pub open spec fn remind_options() -> Seq<FormOptionView> {
    seq![
        text_option("msg"@, "Message to be sent"@, true),
        text_option("min"@, "Minute (0-59)"@, false),
        text_option("hour"@, "Hour (0-23)"@, false),
        text_option("dom"@, "Day of month (1-31)"@, false),
        text_option("month"@, "Month (1-12 or Jan-Dec)"@, false),
        text_option("dow"@, "Day of week (Sun-Sat)"@, false),
        text_option("year"@, "Year"@, false),
    ]
}

/// A field as it was given, or `*`, which stands for every value, where it was
/// left out.
pub open spec fn or_any(field: Option<Seq<char>>) -> Seq<char> {
    match field {
        Some(text) => text,
        None => "*"@,
    }
}

/// The day of the month and the day of the week as they go into the
/// expression. The two fields bear on each other: where only one of them is
/// given, the other is `?`, which leaves it unspecified; where neither is
/// given, both are `*`.
pub open spec fn day_fields(dom: Option<Seq<char>>, dow: Option<Seq<char>>) -> (
    Seq<char>,
    Seq<char>,
) {
    match (dom, dow) {
        (Some(dom), Some(dow)) => (dom, dow),
        (Some(dom), None) => (dom, "?"@),
        (None, Some(dow)) => ("?"@, dow),
        (None, None) => ("*"@, "*"@),
    }
}

/// The cron expression that `options` spell: seven fields with a blank
/// between each two, the seconds always `0`.
pub open spec fn expression(options: OptionsView) -> Seq<char> {
    let days = day_fields(chosen_text(options, "dom"@), chosen_text(options, "dow"@));
    "0 "@ + or_any(chosen_text(options, "min"@)) + " "@ + or_any(chosen_text(options, "hour"@))
        + " "@ + days.0 + " "@ + or_any(chosen_text(options, "month"@)) + " "@ + days.1 + " "@
        + or_any(chosen_text(options, "year"@))
}

/// The kind of reminder that the command called `name` makes of `options` in
/// channel `channel_id` of `store` at `now`, or `None` where it makes none:
/// where cron refuses the expression, and where the schedule names no instant
/// to come after `now` in the channel's zone. `remindonce` takes the first
/// such instant; any other name keeps the schedule.
pub open spec fn planned(
    store: DbView,
    name: Seq<char>,
    channel_id: u64,
    options: OptionsView,
    now: i64,
) -> Option<KindView> {
    let expr = expression(options);
    if !cron_accepts(expr) {
        None
    } else {
        match Schedule::next_due(expr, channel_of(store, channel_id).tz, now) {
            Some(at) => if name == "remindonce"@ {
                Some(KindView::Once(at))
            } else {
                Some(KindView::Scheduled(expr))
            },
            None => None,
        }
    }
}

/// A schedule that cron refuses, or that names no instant to come, makes no
/// reminder, whatever the command is called.
pub proof fn lemma_schedule_without_instants_is_refused(
    store: DbView,
    name: Seq<char>,
    channel_id: u64,
    options: OptionsView,
    now: i64,
)
    ensures
        planned(store, name, channel_id, options, now) is None <==> !cron_accepts(
            expression(options),
        ) || Schedule::next_due(
            expression(options),
            channel_of(store, channel_id).tz,
            now,
        ) is None,
{
}

/// Whether a timer in its first state for a reminder that stands for
/// `reminder` was started in channel `channel_id`, with a handle that was
/// neither in use nor retired in `before` and in the zone that the channel has
/// in `before`, and `after` is `before` with that reminder put in.
pub open spec fn started(
    before: DbView,
    channel_id: u64,
    reminder: ReminderView,
    after: DbView,
    timer: Timer,
) -> bool {
    &&& !holds(before, channel_id, timer.key@)
    &&& !retired(before, channel_id, timer.key@)
    &&& after == with_reminder(before, channel_id, timer.key@, reminder)
    &&& timer.channel_id == channel_id
    &&& timer.tz@ == channel_of(before, channel_id).tz
    &&& timer.reminder@ == reminder
    &&& timer.state == TimerState::Computing
}

/// Whether `call` has what the two commands need: a message, text for every
/// option, and room in the channel.
pub open spec fn can_remind(store: DbView, call: Invocation) -> bool {
    &&& all_text(call.options@)
    &&& chosen_text(call.options@, "msg"@) is Some
    &&& has_room(store, call.channel_id)
}

/// Whether `call` at `now` made `after` of `before` with the outcome
/// `outcome`. Where the call makes a reminder, the reminder has the message of
/// the call, it is stored, its timer is started and the answer is `done`.
/// Where it makes none, the store stays as it was, there is no timer and the
/// answer is `invalid cron expression`. A call that lacks what the commands
/// need is ignored.
pub open spec fn reminded(
    before: DbView,
    call: Invocation,
    now: i64,
    after: DbView,
    outcome: Outcome,
) -> bool {
    if can_remind(before, call) {
        match planned(before, call.name@, call.channel_id, call.options@, now) {
            Some(kind) => {
                &&& outcome.answer matches Answer::Content(content)
                &&& content@ == "done"@
                &&& outcome.persist
                &&& outcome.timer matches Some(timer)
                &&& started(
                    before,
                    call.channel_id,
                    ReminderView { kind, msg: chosen_text(call.options@, "msg"@)->0 },
                    after,
                    timer,
                )
            },
            None => {
                &&& outcome.answer matches Answer::Content(content)
                &&& content@ == "invalid cron expression"@
                &&& outcome.timer is None
                &&& !outcome.persist
                &&& after == before
            },
        }
    } else {
        ignored(before, after, outcome)
    }
}

/// Where only the day of the month is given, the day of the week is left
/// unspecified, and the other way round: the field that was left out is `?` in
/// the expression, not `*`, which would stand for every day.
pub proof fn lemma_lone_day_leaves_other_unspecified(options: OptionsView)
    ensures
        chosen_text(options, "dom"@) is Some && chosen_text(options, "dow"@) is None ==> expression(
            options,
        ) == "0 "@ + or_any(chosen_text(options, "min"@)) + " "@ + or_any(
            chosen_text(options, "hour"@),
        ) + " "@ + chosen_text(options, "dom"@)->0 + " "@ + or_any(chosen_text(options, "month"@))
            + " "@ + "?"@ + " "@ + or_any(chosen_text(options, "year"@)),
        chosen_text(options, "dom"@) is None && chosen_text(options, "dow"@) is Some ==> expression(
            options,
        ) == "0 "@ + or_any(chosen_text(options, "min"@)) + " "@ + or_any(
            chosen_text(options, "hour"@),
        ) + " "@ + "?"@ + " "@ + or_any(chosen_text(options, "month"@)) + " "@ + chosen_text(
            options,
            "dow"@,
        )->0 + " "@ + or_any(chosen_text(options, "year"@)),
        "?"@ == seq!['?'],
        "*"@ == seq!['*'],
{
    reveal_strlit("?");
    reveal_strlit("*");
}

/// What `remindme` and `remindonce` share.
pub struct Remind;

impl Remind {
    /// Fills in the form: the description, and the options that both commands
    /// take.
    pub fn create(command: &mut CommandForm, description: &str)
        ensures
            final(command)@ == (CommandFormView {
                description: description@,
                options: old(command)@.options + remind_options(),
                ..old(command)@
            }),
    {
        command.description(description);
        command.create_option("msg", "Message to be sent", OptionKind::String, true);
        command.create_option("min", "Minute (0-59)", OptionKind::String, false);
        command.create_option("hour", "Hour (0-23)", OptionKind::String, false);
        command.create_option("dom", "Day of month (1-31)", OptionKind::String, false);
        command.create_option("month", "Month (1-12 or Jan-Dec)", OptionKind::String, false);
        command.create_option("dow", "Day of week (Sun-Sat)", OptionKind::String, false);
        command.create_option("year", "Year", OptionKind::String, false);
        assert(command@.options =~= old(command)@.options + remind_options());
    }

    /// The cron expression that `options` spell.
    pub fn expression(options: &Options) -> (expr: String)
        ensures
            expr@ == expression(options@),
    {
        let dom = options.text("dom");
        let dow = options.text("dow");
        let (dom, dow) = match (dom, dow) {
            (Some(dom), Some(dow)) => (dom, dow),
            (Some(dom), None) => (dom, "?"),
            (None, Some(dow)) => ("?", dow),
            (None, None) => ("*", "*"),
        };
        let mut expr = "0 ".to_owned();
        expr.append(
            match options.text("min") {
                Some(field) => field,
                None => "*",
            },
        );
        expr.append(" ");
        expr.append(
            match options.text("hour") {
                Some(field) => field,
                None => "*",
            },
        );
        expr.append(" ");
        expr.append(dom);
        expr.append(" ");
        expr.append(
            match options.text("month") {
                Some(field) => field,
                None => "*",
            },
        );
        expr.append(" ");
        expr.append(dow);
        expr.append(" ");
        expr.append(
            match options.text("year") {
                Some(field) => field,
                None => "*",
            },
        );
        expr
    }

    /// Makes a reminder of what `command` holds and stores it in the channel of
    /// the call. The answer is `done` where a reminder was stored, and
    /// `invalid cron expression` where none was, because cron refuses the
    /// expression or the schedule names no instant to come: then the store is
    /// as it was.
    /// A call without a message, with an option that is no text, or for a
    /// channel without room is ignored.
    pub fn handle(manager: &mut Manager, command: &Invocation, now: i64) -> (outcome: Outcome)
        ensures
            reminded(old(manager)@, *command, now, final(manager)@, outcome),
    {
        let channel_id = command.channel_id;
        let options = &command.options;
        let msg = match options.text("msg") {
            Some(msg) => msg.to_owned(),
            None => {
                return Outcome::nothing();
            },
        };
        if !options.only_text() || !manager.has_room(channel_id) {
            return Outcome::nothing();
        }
        let expr = Remind::expression(options);
        let schedule = match Schedule::from_str(expr.as_str()) {
            Ok(schedule) => schedule,
            Err(_) => {
                return Outcome {
                    answer: Answer::Content("invalid cron expression".to_owned()),
                    timer: None,
                    persist: false,
                };
            },
        };
        let tz = match manager.channel_tz(channel_id) {
            Some(tz) => tz,
            None => Timezone::utc(),
        };
        let at = match schedule.next_after(&tz, now) {
            Some(at) => at,
            None => {
                return Outcome {
                    answer: Answer::Content("invalid cron expression".to_owned()),
                    timer: None,
                    persist: false,
                };
            },
        };
        let reminder_type = if str_eq(command.name.as_str(), "remindonce") {
            ReminderType::Once(at)
        } else {
            ReminderType::Scheduled(schedule)
        };
        let timer = manager.add_reminder(channel_id, Reminder { reminder_type, msg });
        Outcome { answer: Answer::Content("done".to_owned()), timer: Some(timer), persist: true }
    }
}

/// The command that sets a reminder which repeats.
pub struct RemindMe;

impl Command for RemindMe {
    open spec fn named(&self) -> Seq<char> {
        "remindme"@
    }

    open spec fn offers(&self, before: CommandFormView) -> CommandFormView {
        CommandFormView {
            description: "Sends message at scheduled time(s) using cron format"@,
            options: before.options + remind_options(),
            ..before
        }
    }

    open spec fn handles(
        &self,
        before: DbView,
        call: Invocation,
        now: i64,
        after: DbView,
        outcome: Outcome,
    ) -> bool {
        reminded(before, call, now, after, outcome)
    }

    fn name(&self) -> (name: &str) {
        "remindme"
    }

    fn can_handle(&self, name: &str) -> (can: bool) {
        str_eq(name, "remindme")
    }

    fn create(&self, command: &mut CommandForm) {
        Remind::create(command, "Sends message at scheduled time(s) using cron format");
    }

    fn handle(&self, manager: &mut Manager, command: &Invocation, now: i64) -> (outcome: Outcome) {
        Remind::handle(manager, command, now)
    }
}

/// The command that sets a reminder which is due once.
pub struct RemindOnce;

impl Command for RemindOnce {
    open spec fn named(&self) -> Seq<char> {
        "remindonce"@
    }

    open spec fn offers(&self, before: CommandFormView) -> CommandFormView {
        CommandFormView {
            description: "Sends message once at a scheduled time using cron format"@,
            options: before.options + remind_options(),
            ..before
        }
    }

    open spec fn handles(
        &self,
        before: DbView,
        call: Invocation,
        now: i64,
        after: DbView,
        outcome: Outcome,
    ) -> bool {
        reminded(before, call, now, after, outcome)
    }

    fn name(&self) -> (name: &str) {
        "remindonce"
    }

    fn can_handle(&self, name: &str) -> (can: bool) {
        str_eq(name, "remindonce")
    }

    fn create(&self, command: &mut CommandForm) {
        Remind::create(command, "Sends message once at a scheduled time using cron format");
    }

    fn handle(&self, manager: &mut Manager, command: &Invocation, now: i64) -> (outcome: Outcome) {
        Remind::handle(manager, command, now)
    }
}

} // verus!
