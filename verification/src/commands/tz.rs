//! The command that sets the time zone of a channel: `tz`.

use crate::commands::command::{
    chosen_text, ignored, text_option, Answer, Command, CommandForm, CommandFormView, Invocation,
    OptionKind, Outcome,
};
use crate::db::{with_tz, DbView};
use crate::manager::Manager;
use crate::text::str_eq;
use crate::zone::is_iana_zone;
use vstd::prelude::*;

verus! {

/// The answer to a zone name that the database does not hold.
pub const INVALID_TIMEZONE: &'static str =
    "invalid timezone (list of timezone names: <https://w.wiki/4Jx>, capitalization matters!)";

/// Whether `call` made `after` of `before` with the outcome `outcome`: where the
/// database holds the name that the call gives, the channel has that zone and
/// the answer is `done`; else the store stays as it was, and the answer says
/// that the name is not valid. There is no timer, and the store is to be
/// written where the zone was set. A call without a name is ignored.
pub open spec fn zone_set(
    before: DbView,
    call: Invocation,
    after: DbView,
    outcome: Outcome,
) -> bool {
    match chosen_text(call.options@, "tz"@) {
        Some(name) => {
            &&& outcome.timer is None
            &&& outcome.answer matches Answer::Content(content)
            &&& outcome.persist == is_iana_zone(name)
            &&& if is_iana_zone(name) {
                content@ == "done"@ && after == with_tz(before, call.channel_id, name)
            } else {
                content@ == INVALID_TIMEZONE@ && after == before
            }
        },
        None => ignored(before, after, outcome),
    }
}

/// The command that sets the time zone of a channel.
pub struct Tz;

impl Command for Tz {
    open spec fn named(&self) -> Seq<char> {
        "tz"@
    }

    open spec fn offers(&self, before: CommandFormView) -> CommandFormView {
        CommandFormView {
            description: "Set timezone for this channel"@,
            options: before.options.push(text_option("tz"@, "IANA timezone name"@, true)),
            ..before
        }
    }

    open spec fn handles(
        &self,
        before: DbView,
        call: Invocation,
        now: i64,
        after: DbView,
        outcome: Outcome,
    ) -> bool {
        zone_set(before, call, after, outcome)
    }

    fn name(&self) -> (name: &str) {
        "tz"
    }

    fn can_handle(&self, name: &str) -> (can: bool) {
        str_eq(name, "tz")
    }

    fn create(&self, command: &mut CommandForm) {
        command.description("Set timezone for this channel");
        command.create_option("tz", "IANA timezone name", OptionKind::String, true);
    }

    /// Sets the zone of the channel of the call to the one that the call
    /// names, and answers `done`. Where the database has no such zone the
    /// store stays as it was, and the answer says so.
    fn handle(&self, manager: &mut Manager, command: &Invocation, now: i64) -> (outcome: Outcome) {
        let tz_str = match command.options.text("tz") {
            Some(name) => name,
            None => {
                return Outcome::nothing();
            },
        };
        match manager.set_channel_tz(command.channel_id, tz_str) {
            Ok(_) => Outcome {
                answer: Answer::Content("done".to_owned()),
                timer: None,
                persist: true,
            },
            Err(_) => Outcome {
                answer: Answer::Content(INVALID_TIMEZONE.to_owned()),
                timer: None,
                persist: false,
            },
        }
    }
}

} // verus!
