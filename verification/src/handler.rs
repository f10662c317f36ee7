//! The handler: what the chat platform reports, and what is done about it.

use crate::commands::command::{
    ignored, Answer, Command, CommandForm, CommandFormView, Invocation, Outcome,
};
use crate::commands::menu::{menu_of, Menu};
use crate::commands::remind::{started, RemindMe, RemindOnce};
use crate::commands::remindin::RemindIn;
use crate::commands::tz::Tz;
use crate::db::{channel_of, has_room, opened_from, walks, DbView, Saved};
use crate::manager::{entry_of, Manager, Timer, TimerState};
use crate::message::plain_message;
use crate::reminder::{KindView, Reminder, ReminderType, ReminderView};
use crate::reminder_menu::{
    deletes, menu_after, menu_message, Component, ReminderMenu, ReminderMenuView,
};
use crate::slots::SLOT_LIMIT;
use crate::text::{after_dash, before_dash, parse_integer, parsed_integer, split_at_dash, str_eq};
use vstd::prelude::*;

verus! {

/// A use of something in a message: the channel, the text of the message, and
/// what was used.
#[derive(Debug)]
pub struct ComponentInteraction {
    pub channel_id: u64,
    pub content: String,
    pub component: Component,
}

/// What the chat platform reports.
#[derive(Debug)]
pub enum Interaction {
    /// A command was called.
    ApplicationCommand(Invocation),
    /// Something in a message was used.
    MessageComponent(ComponentInteraction),
    /// Anything else.
    Other,
}

/// The instant to which a press of the button with the identifier
/// `custom_id` puts a reminder off at `now`: so many minutes after `now` as
/// the text after the first `-` of the identifier spells, where it spells a
/// whole number and the instant is one that can be named.
pub open spec fn postponed(custom_id: Seq<char>, now: i64) -> Option<i64> {
    match after_dash(custom_id) {
        Some(rest) => match parsed_integer(rest) {
            Some(minutes) => if i64::MIN <= now + 60 * minutes <= i64::MAX {
                Some((now + 60 * minutes) as i64)
            } else {
                None
            },
            None => None,
        },
        None => None,
    }
}

/// Whether calling the command of `call` at `now` made `after` of `before`
/// with the outcome `outcome`: the command that has the name of the call did
/// what it does; a name that no command has is ignored.
pub open spec fn called(
    before: DbView,
    call: Invocation,
    now: i64,
    after: DbView,
    outcome: Outcome,
) -> bool {
    if call.name@ == Menu.named() {
        Menu.handles(before, call, now, after, outcome)
    } else if call.name@ == RemindIn.named() {
        RemindIn.handles(before, call, now, after, outcome)
    } else if call.name@ == RemindMe.named() {
        RemindMe.handles(before, call, now, after, outcome)
    } else if call.name@ == RemindOnce.named() {
        RemindOnce.handles(before, call, now, after, outcome)
    } else if call.name@ == Tz.named() {
        Tz.handles(before, call, now, after, outcome)
    } else {
        ignored(before, after, outcome)
    }
}

/// Whether the use `used` of something in a message at `now` made `after` of
/// `before` with the outcome `outcome`. What stands before the first `-` of
/// the identifier decides: `menu` is for the menu of the channel, `postpone`
/// stores a reminder with the text of the message, due once at the instant to
/// which the button puts it off; anything else is ignored, and so is a
/// `postpone` that names no instant or finds no room in the channel. The store
/// is to be written where a reminder was stored or one was to be deleted.
pub open spec fn used(
    before: DbView,
    used: ComponentInteraction,
    now: i64,
    after: DbView,
    outcome: Outcome,
) -> bool {
    let prefix = before_dash(used.component.custom_id@);
    let channel_id = used.channel_id;
    if prefix == "menu"@ {
        &&& outcome.timer is None
        &&& outcome.persist == deletes(used.component)
        &&& outcome.answer matches Answer::Update(message)
        &&& exists|menu: ReminderMenuView|
            {
                &&& menu_of(channel_of(before, channel_id), menu)
                &&& after == (#[trigger] menu_after(menu, before, channel_id, used.component)).1
                &&& message@ == if menu_after(menu, before, channel_id, used.component).2 {
                    menu_message(menu_after(menu, before, channel_id, used.component).0, now)
                } else {
                    plain_message("done"@)
                }
            }
    } else if prefix == "postpone"@ {
        match postponed(used.component.custom_id@, now) {
            Some(at) => if has_room(before, channel_id) {
                &&& outcome.answer is Unchanged
                &&& outcome.persist
                &&& outcome.timer matches Some(timer)
                &&& started(
                    before,
                    channel_id,
                    ReminderView { kind: KindView::Once(at), msg: used.content@ },
                    after,
                    timer,
                )
            } else {
                ignored(before, after, outcome)
            },
            None => ignored(before, after, outcome),
        }
    } else {
        ignored(before, after, outcome)
    }
}

/// The form in which a command that is called `name` and fills a form in as
/// `filled` says is offered.
pub open spec fn offer(name: Seq<char>, filled: CommandFormView) -> CommandFormView {
    CommandFormView { name, ..filled }
}

/// A form with nothing filled in.
pub open spec fn blank() -> CommandFormView {
    CommandFormView { name: Seq::empty(), description: Seq::empty(), options: Seq::empty() }
}

/// The forms of the commands that are offered, in the order in which they are
/// registered: each with the command's name, and filled in by the command.
pub open spec fn offered() -> Seq<CommandFormView> {
    seq![
        Menu.offers(offer(Menu.named(), blank())),
        RemindIn.offers(offer(RemindIn.named(), blank())),
        RemindMe.offers(offer(RemindMe.named(), blank())),
        RemindOnce.offers(offer(RemindOnce.named(), blank())),
        Tz.offers(offer(Tz.named(), blank())),
    ]
}

/// The manager, behind the interactions of the chat platform.
pub struct Handler {
    manager: Manager,
}

impl View for Handler {
    type V = DbView;

    closed spec fn view(&self) -> DbView {
        self.manager@
    }
}

impl Handler {
    /// The handler of the store that the records `saved`, as they were read
    /// from the file, make.
    pub fn with_file(saved: &Vec<Saved>) -> (handler: Handler)
        requires
            forall|i: int| 0 <= i < saved@.len() ==> (#[trigger] saved@[i]).2@.len() <= SLOT_LIMIT,
        ensures
            opened_from(saved@, handler@),
    {
        Handler { manager: Manager::with_file(saved) }
    }

    /// The manager.
    pub fn manager(&self) -> (manager: &Manager)
        ensures
            manager@ == self@,
    {
        &self.manager
    }

    /// The manager, to work on the store.
    pub fn manager_mut(&mut self) -> (manager: &mut Manager)
        ensures
            manager@ == old(self)@,
            final(self)@ == final(manager)@,
    {
        &mut self.manager
    }

    /// The form in which `command` is offered: its name, and what it fills
    /// in.
    pub fn form_of<C: Command>(command: &C) -> (form: CommandForm)
        ensures
            form@ == command.offers(offer(command.named(), blank())),
    {
        let mut form = CommandForm::new();
        form.name(command.name());
        command.create(&mut form);
        form
    }

    /// What is to be done once the connection stands: a timer for every
    /// reminder of the store, and the forms of the commands to register.
    pub fn ready(&self) -> (start: (Vec<Timer>, Vec<CommandForm>))
        ensures
            walks(self@, Seq::new(start.0@.len(), |i: int| entry_of(start.0@[i]))),
            forall|i: int|
                0 <= i < start.0@.len() ==> (#[trigger] start.0@[i]).state == TimerState::Computing,
            Seq::new(start.1@.len(), |i: int| start.1@[i]@) == offered(),
    {
        let timers = self.manager.start_reminders();
        let mut forms: Vec<CommandForm> = Vec::new();
        forms.push(Handler::form_of(&Menu));
        forms.push(Handler::form_of(&RemindIn));
        forms.push(Handler::form_of(&RemindMe));
        forms.push(Handler::form_of(&RemindOnce));
        forms.push(Handler::form_of(&Tz));
        (timers, forms)
    }

    /// Calls the command that `call` names.
    fn command(&mut self, call: &Invocation, now: i64) -> (outcome: Outcome)
        ensures
            called(old(self)@, *call, now, final(self)@, outcome),
    {
        let name = call.name.as_str();
        if Menu.can_handle(name) {
            Menu.handle(&mut self.manager, call, now)
        } else if RemindIn.can_handle(name) {
            RemindIn.handle(&mut self.manager, call, now)
        } else if RemindMe.can_handle(name) {
            RemindMe.handle(&mut self.manager, call, now)
        } else if RemindOnce.can_handle(name) {
            RemindOnce.handle(&mut self.manager, call, now)
        } else if Tz.can_handle(name) {
            Tz.handle(&mut self.manager, call, now)
        } else {
            Outcome::nothing()
        }
    }

    /// The instant to which a press of the button with the identifier
    /// `custom_id` puts a reminder off at `now`.
    pub fn postpone_to(custom_id: &str, now: i64) -> (at: Option<i64>)
        ensures
            at == postponed(custom_id@, now),
    {
        let (_, rest) = split_at_dash(custom_id);
        let rest = match rest {
            Some(rest) => rest,
            None => {
                return None;
            },
        };
        let minutes = match parse_integer(rest) {
            Some(minutes) => minutes,
            None => {
                return None;
            },
        };
        let at: i128 = now as i128 + 60 * (minutes as i128);
        if at < i64::MIN as i128 || at > i64::MAX as i128 {
            None
        } else {
            Some(at as i64)
        }
    }

    /// Takes the use of something in a message.
    fn component(&mut self, pressed: &ComponentInteraction, now: i64) -> (outcome: Outcome)
        ensures
            used(old(self)@, *pressed, now, final(self)@, outcome),
    {
        let (prefix, _) = split_at_dash(pressed.component.custom_id.as_str());
        let channel_id = pressed.channel_id;
        if str_eq(prefix, "menu") {
            let mut menu = ReminderMenu::new(&self.manager, channel_id);
            let message = menu.handle(&mut self.manager, channel_id, &pressed.component, now);
            Outcome {
                answer: Answer::Update(message),
                timer: None,
                persist: ReminderMenu::deletes(&pressed.component),
            }
        } else if str_eq(prefix, "postpone") {
            match Handler::postpone_to(pressed.component.custom_id.as_str(), now) {
                Some(at) => {
                    if self.manager.has_room(channel_id) {
                        let reminder = Reminder {
                            reminder_type: ReminderType::Once(at),
                            msg: pressed.content.clone(),
                        };
                        let timer = self.manager.add_reminder(channel_id, reminder);
                        Outcome { answer: Answer::Unchanged, timer: Some(timer), persist: true }
                    } else {
                        Outcome::nothing()
                    }
                },
                None => Outcome::nothing(),
            }
        } else {
            Outcome::nothing()
        }
    }

    /// Takes what the chat platform reports at `now`, does what is to be done
    /// about it in the store, and returns the answer to give and the timer to
    /// run.
    pub fn interaction_create(&mut self, interaction: &Interaction, now: i64) -> (outcome: Outcome)
        ensures
            match *interaction {
                Interaction::ApplicationCommand(call) => called(
                    old(self)@,
                    call,
                    now,
                    final(self)@,
                    outcome,
                ),
                Interaction::MessageComponent(pressed) => used(
                    old(self)@,
                    pressed,
                    now,
                    final(self)@,
                    outcome,
                ),
                Interaction::Other => ignored(old(self)@, final(self)@, outcome),
            },
    {
        match interaction {
            Interaction::ApplicationCommand(call) => self.command(call, now),
            Interaction::MessageComponent(pressed) => self.component(pressed, now),
            Interaction::Other => Outcome::nothing(),
        }
    }
}

} // verus!
