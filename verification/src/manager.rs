//! The manager: the store, and the timer that runs for each reminder.
//!
//! A timer is a state machine. It asks for the clock, works out when its
//! reminder is next due, asks to be woken then, checks on waking that the
//! reminder is still in the store, asks for the message to be delivered, and
//! either starts over or ends. Reading the clock, sleeping and delivering are
//! the caller's part: the timer names each as an action and takes what came
//! of it as an event.

use crate::db::{
    channel_of, has_room, holds, listed_in, opened_from, place, retired, walks, with_reminder,
    with_tz, without_reminder, Db, DbView, Entry, Saved,
};
use crate::message::{Button, ButtonStyle, ButtonView, MessageForm, MessageFormView};
use crate::reminder::{ChannelData, KindView, Reminder, ReminderId, ReminderType};
use crate::schedule::{lemma_first_after, Schedule};
use crate::slots::{key_version, LAST_VERSION, SLOT_LIMIT};
use crate::text::{decimal, decimal_digits};
use crate::zone::{is_iana_zone, InvalidTimezone, Timezone};
use vstd::prelude::*;

verus! {

/// The seconds from `now` until `target`; none where `target` is not later
/// than `now`.
pub open spec fn seconds_until(target: i64, now: i64) -> u64 {
    if target > now {
        (target - now) as u64
    } else {
        0
    }
}

/// How many seconds to sleep at `now` so as to wake at `datetime`: none when
/// that instant has come or gone.
pub fn wait_until(datetime: i64, now: i64) -> (seconds: u64)
    ensures
        seconds == seconds_until(datetime, now),
        seconds == 0 <==> datetime <= now,
{
    if datetime > now {
        let ahead: i128 = datetime as i128 - now as i128;
        ahead as u64
    } else {
        0
    }
}

/// The minutes by which the buttons of a delivered reminder put it off.
pub open spec fn postpone_steps() -> Seq<u64> {
    seq![5, 15, 30]
}

/// The button that puts a reminder with the message `msg` off by `minutes`.
pub open spec fn postpone_button(minutes: u64, msg: Seq<char>) -> ButtonView {
    ButtonView {
        style: ButtonStyle::Secondary,
        label: "+"@ + decimal_digits(minutes as nat) + " min"@,
        custom_id: "postpone-"@ + decimal_digits(minutes as nat) + "-"@ + msg,
        disabled: false,
    }
}

/// The message by which a reminder with the message `msg` is delivered: the
/// message, and a button for each way of putting it off.
pub open spec fn notice(msg: Seq<char>) -> MessageFormView {
    MessageFormView {
        content: msg,
        options: Seq::empty(),
        buttons: Seq::new(3, |i: int| postpone_button(postpone_steps()[i], msg)),
    }
}

/// The message by which a reminder with the message `msg` is delivered.
pub fn remind_at(msg: &str) -> (message: MessageForm)
    ensures
        message@ == notice(msg@),
{
    let steps: [u64; 3] = [5, 15, 30];
    let mut buttons: Vec<Button> = Vec::new();
    let mut i: usize = 0;
    while i < 3
        invariant
            i <= 3,
            steps@ == postpone_steps(),
            buttons@.len() == i,
            forall|j: int|
                0 <= j < i ==> (#[trigger] buttons@[j])@ == postpone_button(
                    postpone_steps()[j],
                    msg@,
                ),
        decreases 3 - i,
    {
        let minutes = decimal(steps[i]);
        let mut label = "+".to_owned();
        label.append(minutes.as_str());
        label.append(" min");
        let mut custom_id = "postpone-".to_owned();
        custom_id.append(minutes.as_str());
        custom_id.append("-");
        custom_id.append(msg);
        buttons.push(Button { style: ButtonStyle::Secondary, label, custom_id, disabled: false });
        i = i + 1;
    }
    let message = MessageForm { content: msg.to_owned(), options: Vec::new(), buttons };
    proof {
        assert(message@.options =~= Seq::empty());
        assert(message@.buttons =~= notice(msg@).buttons);
    }
    message
}

/// Where a timer stands.
#[derive(Clone, Copy, Debug, PartialEq, Eq, Structural)]
pub enum TimerState {
    /// About to work out the next instant at which the reminder is due.
    Computing,
    /// Asleep until the instant given.
    Waiting(i64),
    /// Awake, and asking whether the reminder is still in the store.
    Verifying,
    /// Having the message delivered.
    Firing,
    /// Done for good.
    Terminal,
}

/// What a timer is told.
#[derive(Clone, Copy, Debug, PartialEq, Eq, Structural)]
pub enum TimerEvent {
    /// The clock shows this instant.
    Clock(i64),
    /// The sleep is over.
    Woke,
    /// Whether the store still has the reminder.
    Found(bool),
    /// The delivery has been tried, whether or not it succeeded.
    Delivered,
}

/// What a timer asks for.
#[derive(Clone, Copy, Debug, PartialEq, Eq, Structural)]
pub enum TimerAction {
    /// Read the clock and report it.
    ReadClock,
    /// Sleep for so many seconds, not at all for none, and report the waking.
    Sleep(u64),
    /// Look the reminder up in the store and report whether it is there.
    Verify,
    /// Deliver the message and report that it was tried.
    Deliver,
    /// Take the reminder out of the store and write the store; the timer has
    /// ended.
    Retire,
    /// Nothing more; the timer has ended and its reminder is gone already.
    Stop,
    /// Nothing: the event was not one that the timer's state awaits.
    Ignore,
}

/// The state that a timer for a reminder of kind `kind` in the zone `tz`
/// enters from `state` on `event`, and what it asks for.
pub open spec fn transition(
    kind: KindView,
    tz: Seq<char>,
    state: TimerState,
    event: TimerEvent,
) -> (TimerState, TimerAction) {
    match (state, event) {
        (TimerState::Computing, TimerEvent::Clock(now)) => match kind {
            KindView::Once(at) => (
                TimerState::Waiting(at),
                TimerAction::Sleep(seconds_until(at, now)),
            ),
            KindView::Scheduled(expr) => match Schedule::next_due(expr, tz, now) {
                Some(at) => (TimerState::Waiting(at), TimerAction::Sleep(seconds_until(at, now))),
                None => (TimerState::Terminal, TimerAction::Retire),
            },
        },
        (TimerState::Waiting(_), TimerEvent::Woke) => (TimerState::Verifying, TimerAction::Verify),
        (TimerState::Verifying, TimerEvent::Found(true)) => (
            TimerState::Firing,
            TimerAction::Deliver,
        ),
        (TimerState::Verifying, TimerEvent::Found(false)) => (
            TimerState::Terminal,
            TimerAction::Stop,
        ),
        (TimerState::Firing, TimerEvent::Delivered) => match kind {
            KindView::Once(_) => (TimerState::Terminal, TimerAction::Retire),
            KindView::Scheduled(_) => (TimerState::Computing, TimerAction::ReadClock),
        },
        _ => (state, TimerAction::Ignore),
    }
}

/// The timer of one reminder.
#[derive(Debug)]
pub struct Timer {
    /// The channel of the reminder.
    pub channel_id: u64,
    /// The zone in which the reminder's schedule is read: the channel's zone
    /// when the timer was started.
    pub tz: Timezone,
    /// The handle of the reminder.
    pub key: ReminderId,
    /// A copy of the reminder.
    pub reminder: Reminder,
    /// Where the timer stands.
    pub state: TimerState,
}

impl Timer {
    /// A timer for `reminder`, about to work out when it is due.
    pub fn new(channel_id: u64, tz: Timezone, key: ReminderId, reminder: Reminder) -> (timer: Timer)
        ensures
            timer.channel_id == channel_id,
            timer.tz@ == tz@,
            timer.key@ == key@,
            timer.reminder@ == reminder@,
            timer.state == TimerState::Computing,
    {
        Timer { channel_id, tz, key, reminder, state: TimerState::Computing }
    }

    /// Takes `event`, moves to the next state and returns what the timer asks
    /// for.
    pub fn step(&mut self, event: TimerEvent) -> (action: TimerAction)
        ensures
            (final(self).state, action) == transition(
                old(self).reminder@.kind,
                old(self).tz@,
                old(self).state,
                event,
            ),
            final(self).channel_id == old(self).channel_id,
            final(self).tz@ == old(self).tz@,
            final(self).key@ == old(self).key@,
            final(self).reminder@ == old(self).reminder@,
    {
        let (state, action) = match (self.state, event) {
            (TimerState::Computing, TimerEvent::Clock(now)) => match &self.reminder.reminder_type {
                ReminderType::Once(at) => (
                    TimerState::Waiting(*at),
                    TimerAction::Sleep(wait_until(*at, now)),
                ),
                ReminderType::Scheduled(schedule) => match schedule.next_after(&self.tz, now) {
                    Some(at) => (TimerState::Waiting(at), TimerAction::Sleep(wait_until(at, now))),
                    None => (TimerState::Terminal, TimerAction::Retire),
                },
            },
            (TimerState::Waiting(_), TimerEvent::Woke) => (
                TimerState::Verifying,
                TimerAction::Verify,
            ),
            (TimerState::Verifying, TimerEvent::Found(true)) => (
                TimerState::Firing,
                TimerAction::Deliver,
            ),
            (TimerState::Verifying, TimerEvent::Found(false)) => (
                TimerState::Terminal,
                TimerAction::Stop,
            ),
            (TimerState::Firing, TimerEvent::Delivered) => match &self.reminder.reminder_type {
                ReminderType::Once(_) => (TimerState::Terminal, TimerAction::Retire),
                ReminderType::Scheduled(_) => (TimerState::Computing, TimerAction::ReadClock),
            },
            _ => (self.state, TimerAction::Ignore),
        };
        self.state = state;
        action
    }
}

/// What a timer stands for in the store: its channel and zone, and its
/// reminder with the handle.
pub open spec fn entry_of(timer: Timer) -> Entry {
    (timer.channel_id, timer.tz, timer.key, timer.reminder)
}

/// Whether `timer`, in its first state, stands for what `entry` stands for.
spec fn entry_views(timer: Timer, entry: Entry) -> bool {
    &&& timer.channel_id == entry.0
    &&& timer.tz@ == entry.1@
    &&& timer.key@ == entry.2@
    &&& timer.reminder@ == entry.3@
    &&& timer.state == TimerState::Computing
}

/// What comes of `event` for a timer in `state` whose reminder has the handle
/// `key` in channel `channel`, with the store's part done: the store after it,
/// the timer's next state, and what is left for the caller to do. The look
/// into the store on waking, and the taking out at the end, are done on the
/// way; after the taking out the caller is left to write the store. An event
/// that reports on the store is not for the caller to give.
pub open spec fn driven(
    store: DbView,
    channel: u64,
    key: u64,
    kind: KindView,
    tz: Seq<char>,
    state: TimerState,
    event: TimerEvent,
) -> (DbView, TimerState, TimerAction) {
    if event is Found {
        (store, state, TimerAction::Ignore)
    } else {
        let (next, action) = transition(kind, tz, state, event);
        match action {
            TimerAction::Verify => {
                let (after, then) = transition(
                    kind,
                    tz,
                    next,
                    TimerEvent::Found(holds(store, channel, key)),
                );
                (store, after, then)
            },
            TimerAction::Retire => (without_reminder(store, channel, key), next, action),
            _ => (store, next, action),
        }
    }
}

/// Whether a timer may pass from `state` to `next` in one step: it stays
/// where it is, or moves on in the round of computing, waiting, verifying and
/// firing, or ends.
pub open spec fn follows(state: TimerState, next: TimerState) -> bool {
    match state {
        TimerState::Computing => next is Computing || next is Waiting || next is Terminal,
        TimerState::Waiting(_) => next == state || next is Verifying,
        TimerState::Verifying => next is Verifying || next is Firing || next is Terminal,
        TimerState::Firing => next is Firing || next is Computing || next is Terminal,
        TimerState::Terminal => next is Terminal,
    }
}

/// A timer takes its states in order and stays at its end once it is there;
/// what it awaits moves it on, whatever came of it: the clock from computing,
/// the waking from waiting, the look into the store from verifying, and the
/// delivery, failed or not, from firing. A delivery is asked for only when the
/// store was found to have the reminder.
pub proof fn lemma_states_in_order(
    kind: KindView,
    tz: Seq<char>,
    state: TimerState,
    event: TimerEvent,
)
    ensures
        follows(state, transition(kind, tz, state, event).0),
        state is Computing && event is Clock ==> !(transition(kind, tz, state, event).0
            is Computing),
        state is Waiting && event is Woke ==> transition(kind, tz, state, event).0 is Verifying,
        state is Verifying && event is Found ==> !(transition(kind, tz, state, event).0
            is Verifying),
        state is Firing && event is Delivered ==> !(transition(kind, tz, state, event).0
            is Firing),
        transition(kind, tz, state, event).1 is Deliver ==> state is Verifying && event
            == TimerEvent::Found(true),
        transition(kind, tz, state, event).1 is Ignore <==> transition(kind, tz, state, event).0
            == state && !(state is Computing && event is Clock),
{
}

/// A recurring reminder is never due at or before the instant at which its
/// next instant is worked out.
pub proof fn lemma_next_instant_is_later(expr: Seq<char>, tz: Seq<char>, now: i64)
    ensures
        transition(
            KindView::Scheduled(expr),
            tz,
            TimerState::Computing,
            TimerEvent::Clock(now),
        ).0 matches TimerState::Waiting(at) ==> at > now,
        Schedule::next_due(expr, tz, now) matches Some(at) ==> at > now,
{
    lemma_first_after(crate::schedule::cron_upcoming(expr, tz, now, 2), now);
}

/// A reminder that is due once, at an instant that has come or gone, is
/// delivered at the next look without any sleep, as long as the store has it,
/// and is then taken out of the store.
pub proof fn lemma_past_once_fires_at_once(
    store: DbView,
    channel: u64,
    key: u64,
    tz: Seq<char>,
    at: i64,
    now: i64,
)
    requires
        at <= now,
        holds(store, channel, key),
    ensures
        driven(
            store,
            channel,
            key,
            KindView::Once(at),
            tz,
            TimerState::Computing,
            TimerEvent::Clock(now),
        ) == (store, TimerState::Waiting(at), TimerAction::Sleep(0)),
        driven(
            store,
            channel,
            key,
            KindView::Once(at),
            tz,
            TimerState::Waiting(at),
            TimerEvent::Woke,
        ) == (store, TimerState::Firing, TimerAction::Deliver),
        driven(
            store,
            channel,
            key,
            KindView::Once(at),
            tz,
            TimerState::Firing,
            TimerEvent::Delivered,
        ) == (without_reminder(store, channel, key), TimerState::Terminal, TimerAction::Retire),
        !holds(without_reminder(store, channel, key), channel, key),
{
}

/// For a reminder that the store does not have, no delivery is asked for,
/// whatever the timer's state and whatever it is told, and nothing that the
/// timer does puts the reminder back.
pub proof fn lemma_removed_never_fires(
    store: DbView,
    channel: u64,
    key: u64,
    kind: KindView,
    tz: Seq<char>,
    state: TimerState,
    event: TimerEvent,
)
    requires
        !holds(store, channel, key),
    ensures
        driven(store, channel, key, kind, tz, state, event).2 != TimerAction::Deliver,
        !holds(driven(store, channel, key, kind, tz, state, event).0, channel, key),
        state == TimerState::Terminal ==> driven(store, channel, key, kind, tz, state, event)
            == (store, TimerState::Terminal, TimerAction::Ignore),
{
}

/// The store and the timers' bookkeeping.
pub struct Manager {
    db: Db,
}

impl View for Manager {
    type V = DbView;

    closed spec fn view(&self) -> DbView {
        self.db@
    }
}

impl Manager {
    /// The manager of the store that the records `saved`, as they were read
    /// from the file, make.
    pub fn with_file(saved: &Vec<Saved>) -> (manager: Manager)
        requires
            forall|i: int| 0 <= i < saved@.len() ==> (#[trigger] saved@[i]).2@.len() <= SLOT_LIMIT,
        ensures
            opened_from(saved@, manager@),
    {
        Manager { db: Db::open(saved) }
    }

    /// The store.
    pub fn db(&self) -> (db: &Db)
        ensures
            db@ == self@,
    {
        &self.db
    }

    /// Sets the zone of channel `channel_id`, which is made where the store had
    /// none, to the one called `tz_str`. A name that the database does not
    /// hold is refused, and the store stays as it was.
    pub fn set_channel_tz(&mut self, channel_id: u64, tz_str: &str) -> (done: Result<
        (),
        InvalidTimezone,
    >)
        ensures
            match done {
                Ok(_) => is_iana_zone(tz_str@) && final(self)@ == with_tz(
                    old(self)@,
                    channel_id,
                    tz_str@,
                ),
                Err(e) => !is_iana_zone(tz_str@) && e.name@ == tz_str@ && final(self)@ == old(
                    self,
                )@,
            },
    {
        self.db.set_tz(channel_id, tz_str)
    }

    /// The zone of channel `channel_id`, if the store has that channel.
    pub fn channel_tz(&self, channel_id: u64) -> (tz: Option<Timezone>)
        ensures
            match tz {
                Some(tz) => self@.dom().contains(channel_id) && tz@ == self@[channel_id].tz,
                None => !self@.dom().contains(channel_id),
            },
    {
        self.db.tz(channel_id)
    }

    /// Channel `channel_id`, if the store has it.
    pub fn channel_data(&self, channel_id: u64) -> (channel: Option<&ChannelData>)
        ensures
            match channel {
                Some(channel) => self@.dom().contains(channel_id) && channel@ == self@[channel_id],
                None => !self@.dom().contains(channel_id),
            },
    {
        self.db.channel_data(channel_id)
    }

    /// A timer for the reminder `reminder`, which has the handle `key` in
    /// channel `channel_id`, with its schedule read in the zone `tz`.
    pub fn start_reminding(
        &self,
        channel_id: u64,
        tz: Timezone,
        key: ReminderId,
        reminder: Reminder,
    ) -> (timer: Timer)
        ensures
            timer.channel_id == channel_id,
            timer.tz@ == tz@,
            timer.key@ == key@,
            timer.reminder@ == reminder@,
            timer.state == TimerState::Computing,
    {
        Timer::new(channel_id, tz, key, reminder)
    }

    /// A timer for every reminder of the store, each with the zone that its
    /// channel has now.
    pub fn start_reminders(&self) -> (timers: Vec<Timer>)
        ensures
            walks(self@, Seq::new(timers@.len(), |i: int| entry_of(timers@[i]))),
            forall|i: int|
                0 <= i < timers@.len() ==> (#[trigger] timers@[i]).state == TimerState::Computing,
    {
        let entries = self.db.iter();
        let mut timers: Vec<Timer> = Vec::new();
        let mut i: usize = 0;
        while i < entries.len()
            invariant
                i <= entries.len(),
                timers@.len() == i,
                forall|j: int| 0 <= j < i ==> entry_views(#[trigger] timers@[j], entries@[j]),
            decreases entries.len() - i,
        {
            let timer = self.start_reminding(
                entries[i].0,
                entries[i].1.clone(),
                entries[i].2,
                entries[i].3.clone(),
            );
            timers.push(timer);
            i = i + 1;
        }
        proof {
            let started = Seq::new(timers@.len(), |i: int| entry_of(timers@[i]));
            assert forall|i: int| 0 <= i < started.len() implies listed_in(
                self@,
                #[trigger] started[i],
            ) by {
                assert(entry_views(timers@[i], entries@[i]));
                assert(listed_in(self@, entries@[i]));
            }
            assert forall|key: u64, id: u64| #[trigger] holds(self@, key, id) implies exists|i: int|
                0 <= i < started.len() && #[trigger] place(started[i]) == (key, id) by {
                let i = choose|i: int|
                    0 <= i < entries@.len() && #[trigger] place(entries@[i]) == (key, id);
                assert(entry_views(timers@[i], entries@[i]));
                assert(place(started[i]) == (key, id));
            }
            assert forall|i: int, j: int| 0 <= i < j < started.len() implies #[trigger] place(
                started[i],
            ) != #[trigger] place(started[j]) by {
                assert(entry_views(timers@[i], entries@[i]));
                assert(entry_views(timers@[j], entries@[j]));
                assert(place(entries@[i]) != place(entries@[j]));
            }
        }
        timers
    }

    /// Stores `reminder` in channel `channel_id`, which is made where the store
    /// had none, and returns a timer for it. The timer reads the schedule in
    /// the zone that the channel has at this moment.
    pub fn add_reminder(&mut self, channel_id: u64, reminder: Reminder) -> (timer: Timer)
        requires
            has_room(old(self)@, channel_id),
        ensures
            !holds(old(self)@, channel_id, timer.key@),
            !retired(old(self)@, channel_id, timer.key@),
            final(self)@ == with_reminder(old(self)@, channel_id, timer.key@, reminder@),
            timer.channel_id == channel_id,
            timer.tz@ == channel_of(old(self)@, channel_id).tz,
            timer.reminder@ == reminder@,
            timer.state == TimerState::Computing,
    {
        let key = self.db.insert(channel_id, reminder.clone());
        let tz = match self.channel_tz(channel_id) {
            Some(tz) => tz,
            None => {
                assert(false);
                Timezone::utc()
            },
        };
        self.start_reminding(channel_id, tz, key, reminder)
    }

    /// Takes the reminder `key` out of channel `channel_id`. Where there is no
    /// such reminder, or no such channel, nothing changes. The handle of a
    /// reminder that was taken out is retired, unless it had the last version
    /// of its slot. A timer that runs for the reminder finds it gone when it
    /// next wakes, and ends.
    pub fn remove_reminder(&mut self, channel_id: u64, key: ReminderId)
        ensures
            final(self)@ == without_reminder(old(self)@, channel_id, key@),
            !holds(final(self)@, channel_id, key@),
            holds(old(self)@, channel_id, key@) && key_version(key@) != LAST_VERSION ==> retired(
                final(self)@,
                channel_id,
                key@,
            ),
    {
        self.db.remove(channel_id, key);
        proof {
            crate::db::lemma_removed_is_gone(old(self)@, channel_id, key@);
        }
    }

    /// Whether channel `channel_id` has room for one more reminder.
    pub fn has_room(&self, channel_id: u64) -> (room: bool)
        ensures
            room == has_room(self@, channel_id),
    {
        self.db.has_room(channel_id)
    }

    /// Whether channel `channel_id` has a reminder with the handle `key`.
    pub fn has_reminder(&self, channel_id: u64, key: ReminderId) -> (held: bool)
        ensures
            held == holds(self@, channel_id, key@),
            retired(self@, channel_id, key@) ==> !held,
    {
        self.db.has_reminder(channel_id, key)
    }

    /// Tells `timer` of `event` as `drive` does, where that leaves the store as
    /// it is, so that others may read the store meanwhile. Where the reminder
    /// would be taken out, nothing is done and nothing is returned: the timer
    /// stands as it stood, and the event is for `drive`.
    pub fn drive_shared(&self, timer: &mut Timer, event: TimerEvent) -> (action: Option<
        TimerAction,
    >)
        ensures
            ({
                let due = driven(
                    self@,
                    old(timer).channel_id,
                    old(timer).key@,
                    old(timer).reminder@.kind,
                    old(timer).tz@,
                    old(timer).state,
                    event,
                );
                if due.2 is Retire {
                    action is None && final(timer).state == old(timer).state
                } else {
                    action == Some(due.2) && final(timer).state == due.1 && due.0 == self@
                }
            }),
            final(timer).channel_id == old(timer).channel_id,
            final(timer).tz@ == old(timer).tz@,
            final(timer).key@ == old(timer).key@,
            final(timer).reminder@ == old(timer).reminder@,
    {
        match event {
            TimerEvent::Found(_) => {
                return Some(TimerAction::Ignore);
            },
            _ => {},
        }
        let state = timer.state;
        let action = timer.step(event);
        match action {
            TimerAction::Verify => {
                let found = self.db.has_reminder(timer.channel_id, timer.key);
                Some(timer.step(TimerEvent::Found(found)))
            },
            TimerAction::Retire => {
                timer.state = state;
                None
            },
            _ => Some(action),
        }
    }

    /// Tells `timer` of `event` and does the store's part of what the timer
    /// then asks for: on waking it looks the reminder up and tells the timer
    /// at once, and at the timer's end it takes the reminder out. What is
    /// returned is left for the caller to do; of `Retire` that is the writing
    /// of the store.
    pub fn drive(&mut self, timer: &mut Timer, event: TimerEvent) -> (action: TimerAction)
        ensures
            (final(self)@, final(timer).state, action) == driven(
                old(self)@,
                old(timer).channel_id,
                old(timer).key@,
                old(timer).reminder@.kind,
                old(timer).tz@,
                old(timer).state,
                event,
            ),
            action != TimerAction::Verify,
            final(timer).channel_id == old(timer).channel_id,
            final(timer).tz@ == old(timer).tz@,
            final(timer).key@ == old(timer).key@,
            final(timer).reminder@ == old(timer).reminder@,
    {
        match event {
            TimerEvent::Found(_) => {
                return TimerAction::Ignore;
            },
            _ => {},
        }
        let action = timer.step(event);
        match action {
            TimerAction::Verify => {
                let found = self.db.has_reminder(timer.channel_id, timer.key);
                timer.step(TimerEvent::Found(found))
            },
            TimerAction::Retire => {
                self.db.remove(timer.channel_id, timer.key);
                TimerAction::Retire
            },
            _ => action,
        }
    }
}

} // verus!
