//! Reminders, and the reminders and time zone of one channel.

use crate::schedule::{cron_accepts, Schedule};
use crate::slots::{
    key_index, key_number, slot_contents, slot_spent, slots_contains, slots_get, slots_insert,
    slots_keys, slots_len, slots_new, slots_remove, spent_after, Slots, NULL_INDEX, SLOT_LIMIT,
};
use crate::zone::{is_iana_zone, InvalidTimezone, Timezone, UTC};
use vstd::prelude::*;

verus! {

/// When a reminder is due.
#[derive(Debug)]
pub enum ReminderType {
    /// Again and again, at the instants of a schedule.
    Scheduled(Schedule),
    /// Once, at an instant.
    Once(i64),
}

/// What a `ReminderType` stands for.
pub enum KindView {
    /// The cron expression of a recurring reminder.
    Scheduled(Seq<char>),
    /// The instant of a reminder that is due once.
    Once(i64),
}

impl View for ReminderType {
    type V = KindView;

    open spec fn view(&self) -> KindView {
        match self {
            ReminderType::Scheduled(schedule) => KindView::Scheduled(schedule@),
            ReminderType::Once(at) => KindView::Once(*at),
        }
    }
}

impl Clone for ReminderType {
    fn clone(&self) -> (copy: ReminderType)
        ensures
            copy@ == self@,
    {
        match self {
            ReminderType::Scheduled(schedule) => ReminderType::Scheduled(schedule.clone()),
            ReminderType::Once(at) => ReminderType::Once(*at),
        }
    }
}

/// A message and when it is due.
#[derive(Debug)]
pub struct Reminder {
    /// When the message is due.
    pub reminder_type: ReminderType,
    /// The message, delivered as it stands.
    pub msg: String,
}

/// What a `Reminder` stands for.
pub struct ReminderView {
    pub kind: KindView,
    pub msg: Seq<char>,
}

impl View for Reminder {
    type V = ReminderView;

    open spec fn view(&self) -> ReminderView {
        ReminderView { kind: self.reminder_type@, msg: self.msg@ }
    }
}

/// Whether a reminder of kind `kind` is one that the store may hold: where it
/// repeats, the parser accepts its expression.
pub open spec fn storable(kind: KindView) -> bool {
    kind matches KindView::Scheduled(expr) ==> cron_accepts(expr)
}

impl Reminder {
    /// The schedule of a reminder that repeats. Every reminder is one that the
    /// store may hold.
    pub fn schedule(&self) -> (schedule: Option<&Schedule>)
        ensures
            storable(self@.kind),
            match schedule {
                Some(schedule) => self@.kind == KindView::Scheduled(schedule@),
                None => self@.kind is Once,
            },
    {
        match &self.reminder_type {
            ReminderType::Scheduled(schedule) => {
                let _ = schedule.source();
                Some(schedule)
            },
            ReminderType::Once(_) => None,
        }
    }
}

impl Clone for Reminder {
    fn clone(&self) -> (copy: Reminder)
        ensures
            copy@ == self@,
    {
        Reminder { reminder_type: self.reminder_type.clone(), msg: self.msg.clone() }
    }
}

/// The handle of a reminder within its channel.
///
/// A handle names a reminder for as long as the reminder lives. The handle of
/// a reminder that has gone is retired: it names nothing, and no later reminder
/// of the channel gets it. A later reminder may get the slot of one that has
/// gone, under a later version of the slot.
#[derive(Clone, Copy, Debug, PartialEq, Eq, Hash, Structural)]
pub struct ReminderId {
    number: u64,
}

impl View for ReminderId {
    type V = u64;

    closed spec fn view(&self) -> u64 {
        self.number
    }
}

impl ReminderId {
    /// Every handle is the number of a key.
    #[verifier::type_invariant]
    pub open spec fn is_key(self) -> bool {
        key_number(self@) == self@
    }

    /// The handle that the number `raw` spells.
    pub fn from_raw(raw: u64) -> (id: ReminderId)
        ensures
            id@ == key_number(raw),
    {
        let number = raw | 0x1_0000_0000;
        assert(number | 0x1_0000_0000 == number) by (bit_vector)
            requires
                number == raw | 0x1_0000_0000,
        ;
        ReminderId { number }
    }

    /// The handle's number, which spells the handle.
    pub fn number(&self) -> (number: u64)
        ensures
            number == self@,
            key_number(number) == number,
    {
        proof {
            use_type_invariant(self);
        }
        self.number
    }
}

/// What each of `reminders` stands for, in their order.
pub open spec fn views(reminders: Seq<Reminder>) -> Seq<ReminderView> {
    Seq::new(reminders.len(), |i: int| reminders[i]@)
}

/// Whether `held` holds the reminders `listed`, one under each of the handles
/// `ids` in the same order, and nothing else.
pub open spec fn holds_exactly(
    held: Map<u64, ReminderView>,
    ids: Seq<u64>,
    listed: Seq<ReminderView>,
) -> bool {
    &&& ids.len() == listed.len()
    &&& ids.no_duplicates()
    &&& ids.to_set() == held.dom()
    &&& forall|i: int| 0 <= i < ids.len() ==> held[#[trigger] ids[i]] == listed[i]
}

/// Whether `held` holds the reminders `listed`, each under a handle of its
/// own, and nothing else.
pub open spec fn lists(held: Map<u64, ReminderView>, listed: Seq<ReminderView>) -> bool {
    exists|ids: Seq<u64>| holds_exactly(held, ids, listed)
}

/// A collection that holds the reminders `listed` is finite and has as many
/// reminders as `listed` has.
pub proof fn lemma_lists_count(held: Map<u64, ReminderView>, listed: Seq<ReminderView>)
    requires
        lists(held, listed),
    ensures
        held.dom().finite(),
        held.dom().len() == listed.len(),
{
    let ids = choose|ids: Seq<u64>| holds_exactly(held, ids, listed);
    ids.unique_seq_to_set();
    vstd::seq_lib::seq_to_set_is_finite(ids);
}

/// What a `ChannelData` stands for: the zone's name, the reminders by their
/// handles, and the handles that are retired.
pub struct ChannelView {
    pub tz: Seq<char>,
    pub reminders: Map<u64, ReminderView>,
    pub retired: Set<u64>,
}

/// A channel in the zone `tz` that never had a reminder.
pub open spec fn fresh_channel(tz: Seq<char>) -> ChannelView {
    ChannelView { tz, reminders: Map::empty(), retired: Set::empty() }
}

/// The time zone and the reminders of one channel.
pub struct ChannelData {
    tz: Timezone,
    reminders: Slots,
}

impl View for ChannelData {
    type V = ChannelView;

    closed spec fn view(&self) -> ChannelView {
        ChannelView {
            tz: self.tz@,
            reminders: slot_contents(self.reminders),
            retired: slot_spent(self.reminders),
        }
    }
}

impl Default for ChannelData {
    /// A channel in UTC without reminders.
    fn default() -> (fresh: ChannelData)
        ensures
            fresh@ == fresh_channel(UTC@),
    {
        ChannelData { tz: Timezone::utc(), reminders: slots_new() }
    }
}

impl ChannelData {
    /// Sets the channel's zone to the one called `tz_str`. A name that the
    /// database does not hold is refused, and the channel stays as it was.
    pub fn set_tz(&mut self, tz_str: &str) -> (done: Result<(), InvalidTimezone>)
        ensures
            match done {
                Ok(_) => is_iana_zone(tz_str@) && final(self)@ == (ChannelView {
                    tz: tz_str@,
                    ..old(self)@
                }),
                Err(e) => !is_iana_zone(tz_str@) && e.name@ == tz_str@ && final(self)@ == old(
                    self,
                )@,
            },
    {
        match Timezone::parse(tz_str) {
            Ok(tz) => {
                self.tz = tz;
                Ok(())
            },
            Err(e) => Err(e),
        }
    }

    /// Sets the channel's zone to `tz`.
    pub fn put_tz(&mut self, tz: Timezone)
        ensures
            final(self)@ == (ChannelView { tz: tz@, ..old(self)@ }),
    {
        self.tz = tz;
    }

    /// The channel's zone.
    pub fn tz(&self) -> (tz: &Timezone)
        ensures
            tz@ == self@.tz,
            is_iana_zone(tz@),
    {
        proof {
            use_type_invariant(&self.tz);
        }
        &self.tz
    }

    /// The number of reminders, which is no more than a channel takes.
    pub fn len(&self) -> (n: usize)
        ensures
            self@.reminders.dom().finite(),
            n == self@.reminders.dom().len(),
            n <= SLOT_LIMIT,
    {
        slots_len(&self.reminders)
    }

    /// Whether the channel has a reminder with the handle `id`. It has none
    /// with a handle that is retired.
    pub fn contains(&self, id: ReminderId) -> (held: bool)
        ensures
            held == self@.reminders.dom().contains(id@),
            self@.retired.contains(id@) ==> !held,
    {
        slots_contains(&self.reminders, id.number())
    }

    /// The reminder with the handle `id`, if the channel has one. What the
    /// channel holds is what the store may hold.
    pub fn get(&self, id: ReminderId) -> (found: Option<&Reminder>)
        ensures
            match found {
                Some(r) => self@.reminders.dom().contains(id@) && self@.reminders[id@] == r@
                    && storable(r@.kind),
                None => !self@.reminders.dom().contains(id@),
            },
    {
        let found = slots_get(&self.reminders, id.number());
        match found {
            Some(reminder) => {
                let _ = reminder.schedule();
            },
            None => {},
        }
        found
    }

    /// Stores `reminder` and returns its handle, which no reminder of the
    /// channel has and which is not retired.
    pub fn insert(&mut self, reminder: Reminder) -> (id: ReminderId)
        requires
            old(self)@.reminders.dom().len() < SLOT_LIMIT,
        ensures
            !old(self)@.reminders.dom().contains(id@),
            !old(self)@.retired.contains(id@),
            key_index(id@) < NULL_INDEX,
            final(self)@ == (ChannelView {
                reminders: old(self)@.reminders.insert(id@, reminder@),
                ..old(self)@
            }),
    {
        let number = slots_insert(&mut self.reminders, reminder);
        ReminderId { number }
    }

    /// Takes the reminder with the handle `id` out, if the channel has one, and
    /// returns it. Its handle is retired from then on.
    pub fn remove(&mut self, id: ReminderId) -> (taken: Option<Reminder>)
        ensures
            final(self)@ == (ChannelView {
                reminders: old(self)@.reminders.remove(id@),
                retired: spent_after(old(self)@.retired, old(self)@.reminders, id@),
                ..old(self)@
            }),
            match taken {
                Some(r) => old(self)@.reminders.dom().contains(id@) && old(self)@.reminders[id@]
                    == r@,
                None => !old(self)@.reminders.dom().contains(id@),
            },
    {
        slots_remove(&mut self.reminders, id.number())
    }

    /// A channel in the zone `tz` that holds a copy of each of `reminders`.
    pub fn from_parts(tz: Timezone, reminders: &Vec<Reminder>) -> (channel: ChannelData)
        requires
            reminders@.len() <= SLOT_LIMIT,
        ensures
            channel@.tz == tz@,
            channel@.retired == Set::<u64>::empty(),
            lists(channel@.reminders, views(reminders@)),
    {
        let mut channel = ChannelData { tz, reminders: slots_new() };
        let ghost mut ids: Seq<u64> = Seq::empty();
        let mut i: usize = 0;
        assert(ids.to_set() =~= channel@.reminders.dom());
        while i < reminders.len()
            invariant
                i <= reminders.len(),
                reminders@.len() <= SLOT_LIMIT,
                channel@.tz == tz@,
                channel@.retired == Set::<u64>::empty(),
                holds_exactly(channel@.reminders, ids, views(reminders@).take(i as int)),
            decreases reminders.len() - i,
        {
            proof {
                ids.unique_seq_to_set();
            }
            let id = channel.insert(reminders[i].clone());
            proof {
                ids.lemma_push_to_set_commute(id@);
                ids = ids.push(id@);
            }
            i = i + 1;
        }
        proof {
            assert(views(reminders@).take(i as int) =~= views(reminders@));
        }
        channel
    }

    /// A copy of each of the channel's reminders. They are no more than a
    /// channel takes.
    pub fn reminders(&self) -> (reminders: Vec<Reminder>)
        ensures
            lists(self@.reminders, views(reminders@)),
            reminders@.len() <= SLOT_LIMIT,
    {
        let entries = self.entries();
        let mut reminders: Vec<Reminder> = Vec::new();
        let mut i: usize = 0;
        while i < entries.len()
            invariant
                i <= entries.len(),
                reminders@.len() == i,
                forall|j: int| 0 <= j < i ==> (#[trigger] reminders@[j])@ == entries@[j].1@,
            decreases entries.len() - i,
        {
            reminders.push(entries[i].1.clone());
            i = i + 1;
        }
        proof {
            let ids = Seq::new(entries@.len(), |i: int| entries@[i].0@);
            assert(holds_exactly(self@.reminders, ids, views(reminders@)));
        }
        reminders
    }

    /// The channel's reminders, each once, with their handles.
    pub fn entries(&self) -> (entries: Vec<(ReminderId, Reminder)>)
        ensures
            holds_exactly(
                self@.reminders,
                Seq::new(entries@.len(), |i: int| entries@[i].0@),
                Seq::new(entries@.len(), |i: int| entries@[i].1@),
            ),
            forall|i: int| 0 <= i < entries@.len() ==> storable((#[trigger] entries@[i]).1@.kind),
            forall|i: int|
                0 <= i < entries@.len() ==> key_index((#[trigger] entries@[i]).0@) < NULL_INDEX,
            entries@.len() <= SLOT_LIMIT,
    {
        let ids = self.ids();
        let mut entries: Vec<(ReminderId, Reminder)> = Vec::new();
        let ghost numbers = ids@.map_values(|id: ReminderId| id@);
        let mut i: usize = 0;
        while i < ids.len()
            invariant
                i <= ids.len(),
                entries@.len() == i,
                numbers == ids@.map_values(|id: ReminderId| id@),
                numbers.to_set() == self@.reminders.dom(),
                forall|j: int| 0 <= j < i ==> (#[trigger] entries@[j]).0@ == numbers[j],
                forall|j: int|
                    0 <= j < i ==> self@.reminders[numbers[j]] == (#[trigger] entries@[j]).1@,
                forall|j: int| 0 <= j < i ==> storable((#[trigger] entries@[j]).1@.kind),
            decreases ids.len() - i,
        {
            let id = ids[i];
            assert(numbers[i as int] == id@);
            match self.get(id) {
                Some(reminder) => {
                    entries.push((id, reminder.clone()));
                },
                None => {
                    assert(false);
                },
            }
            i = i + 1;
        }
        proof {
            assert(Seq::new(entries@.len(), |i: int| entries@[i].0@) =~= numbers);
        }
        entries
    }

    /// The handles of the channel's reminders, each once. None is the null
    /// handle's.
    pub fn ids(&self) -> (ids: Vec<ReminderId>)
        ensures
            ids@.len() == self@.reminders.dom().len(),
            ids@.len() <= SLOT_LIMIT,
            ids@.map_values(|id: ReminderId| id@).no_duplicates(),
            ids@.map_values(|id: ReminderId| id@).to_set() == self@.reminders.dom(),
            forall|i: int| 0 <= i < ids@.len() ==> key_index((#[trigger] ids@[i])@) < NULL_INDEX,
    {
        let raws = slots_keys(&self.reminders);
        let mut ids: Vec<ReminderId> = Vec::new();
        let mut i: usize = 0;
        while i < raws.len()
            invariant
                i <= raws.len(),
                ids@.len() == i,
                forall|j: int| 0 <= j < raws@.len() ==> key_number(#[trigger] raws@[j]) == raws@[j],
                forall|j: int| 0 <= j < i ==> (#[trigger] ids@[j])@ == raws@[j],
            decreases raws.len() - i,
        {
            ids.push(ReminderId { number: raws[i] });
            i = i + 1;
        }
        proof {
            assert(ids@.map_values(|id: ReminderId| id@) == raws@);
            raws@.unique_seq_to_set();
        }
        ids
    }
}

} // verus!
