//! The store: every channel's time zone and reminders, by the channel's number.

use crate::reminder::{
    fresh_channel, holds_exactly, lemma_lists_count, lists, storable, views, ChannelData,
    ChannelView, Reminder, ReminderId, ReminderView,
};
use crate::slots::{key_version, spent_after, LAST_VERSION, SLOT_LIMIT};
use crate::zone::{is_iana_zone, InvalidTimezone, Timezone, UTC};
use std::collections::HashMap;
use vstd::prelude::*;
use vstd::std_specs::iter::IteratorSpec;

verus! {

/// What a `Db` stands for: the channels by their numbers.
pub type DbView = Map<u64, ChannelView>;

/// The channel `key` of `store`, or a channel in UTC without reminders where
/// the store has none under that number.
pub open spec fn channel_of(store: DbView, key: u64) -> ChannelView {
    if store.dom().contains(key) {
        store[key]
    } else {
        fresh_channel(UTC@)
    }
}

/// Whether channel `key` of `store` has room for one more reminder.
pub open spec fn has_room(store: DbView, key: u64) -> bool {
    channel_of(store, key).reminders.dom().len() < SLOT_LIMIT
}

/// Whether the handle `id` is retired in channel `key` of `store`: a reminder
/// of the channel had it and has gone, and no reminder of the channel gets it
/// again.
pub open spec fn retired(store: DbView, key: u64, id: u64) -> bool {
    store.dom().contains(key) && store[key].retired.contains(id)
}

/// Whether channel `key` of `store` has a reminder with the handle `id`.
pub open spec fn holds(store: DbView, key: u64, id: u64) -> bool {
    store.dom().contains(key) && store[key].reminders.dom().contains(id)
}

/// `store` with `reminder` put under the handle `id` in channel `key`, a
/// channel that is made where the store had none.
pub open spec fn with_reminder(
    store: DbView,
    key: u64,
    id: u64,
    reminder: ReminderView,
) -> DbView {
    store.insert(
        key,
        ChannelView {
            reminders: channel_of(store, key).reminders.insert(id, reminder),
            ..channel_of(store, key)
        },
    )
}

/// `store` without the reminder `id` of channel `key`, whose handle is retired
/// from then on. A store that has no such channel stays as it is.
pub open spec fn without_reminder(store: DbView, key: u64, id: u64) -> DbView {
    if store.dom().contains(key) {
        store.insert(
            key,
            ChannelView {
                reminders: store[key].reminders.remove(id),
                retired: spent_after(store[key].retired, store[key].reminders, id),
                ..store[key]
            },
        )
    } else {
        store
    }
}

/// `store` with the zone of channel `key` set to `tz`, a channel that is made
/// where the store had none.
pub open spec fn with_tz(store: DbView, key: u64, tz: Seq<char>) -> DbView {
    store.insert(key, ChannelView { tz, ..channel_of(store, key) })
}

/// One reminder as the store hands it out: the channel's number and zone, the
/// reminder's handle, and the reminder.
pub type Entry = (u64, Timezone, ReminderId, Reminder);

/// The channel and the handle of an entry.
pub open spec fn place(entry: Entry) -> (u64, u64) {
    (entry.0, entry.2@)
}

/// Whether `store` holds the reminder of `entry` under its handle in its
/// channel, and the channel has the entry's zone. What the store holds is in
/// order: the database knows the zone, and the parser accepts the expression
/// of a reminder that repeats.
pub open spec fn listed_in(store: DbView, entry: Entry) -> bool {
    &&& holds(store, entry.0, entry.2@)
    &&& store[entry.0].tz == entry.1@
    &&& store[entry.0].reminders[entry.2@] == entry.3@
    &&& is_iana_zone(entry.1@)
    &&& storable(entry.3@.kind)
}

/// Whether `entries` are the reminders of `store`: each entry is a reminder of
/// the store, each reminder of the store is an entry, and none comes twice.
pub open spec fn walks(store: DbView, entries: Seq<Entry>) -> bool {
    &&& forall|i: int| 0 <= i < entries.len() ==> listed_in(store, #[trigger] entries[i])
    &&& forall|key: u64, id: u64| #[trigger]
        holds(store, key, id) ==> exists|i: int|
            0 <= i < entries.len() && #[trigger] place(entries[i]) == (key, id)
    &&& forall|i: int, j: int|
        0 <= i < j < entries.len() ==> #[trigger] place(entries[i]) != #[trigger] place(
            entries[j],
        )
}

/// A reminder that was taken out is gone, and taking it out once more changes
/// nothing.
pub proof fn lemma_removed_is_gone(store: DbView, key: u64, id: u64)
    ensures
        !holds(without_reminder(store, key, id), key, id),
        without_reminder(without_reminder(store, key, id), key, id) == without_reminder(
            store,
            key,
            id,
        ),
{
    let once = without_reminder(store, key, id);
    if store.dom().contains(key) {
        assert(once[key].reminders.remove(id) =~= once[key].reminders);
    }
}

/// A reminder that was taken out leaves its handle retired, unless the handle
/// had the last version of its slot.
pub proof fn lemma_removed_is_retired(store: DbView, key: u64, id: u64)
    requires
        holds(store, key, id),
        key_version(id) != LAST_VERSION,
    ensures
        retired(without_reminder(store, key, id), key, id),
        !holds(without_reminder(store, key, id), key, id),
{
}

/// One change of a store.
pub enum Change {
    /// A reminder is put into a channel under a handle.
    Insert(u64, u64, ReminderView),
    /// The reminder with a handle is taken out of a channel.
    Remove(u64, u64),
    /// The zone of a channel is set.
    SetTz(u64, Seq<char>),
}

/// `store` after `change`.
pub open spec fn changed(store: DbView, change: Change) -> DbView {
    match change {
        Change::Insert(key, id, reminder) => with_reminder(store, key, id, reminder),
        Change::Remove(key, id) => without_reminder(store, key, id),
        Change::SetTz(key, tz) => with_tz(store, key, tz),
    }
}

/// Whether `change` is one that the store makes of `store`: a reminder is put
/// in under a handle that is neither in use nor retired, and none is taken
/// out under the last version of its slot, with which the slot's count would
/// start afresh.
pub open spec fn regular(store: DbView, change: Change) -> bool {
    match change {
        Change::Insert(key, id, _) => !holds(store, key, id) && !retired(store, key, id),
        Change::Remove(key, id) => holds(store, key, id) ==> key_version(id) != LAST_VERSION,
        Change::SetTz(_, _) => true,
    }
}

/// `store` after `changes`, one after the other.
pub open spec fn changed_by(store: DbView, changes: Seq<Change>) -> DbView
    decreases changes.len(),
{
    if changes.len() == 0 {
        store
    } else {
        changed(changed_by(store, changes.drop_last()), changes.last())
    }
}

/// Whether each of `changes` is regular when its turn comes.
pub open spec fn all_regular(store: DbView, changes: Seq<Change>) -> bool
    decreases changes.len(),
{
    if changes.len() == 0 {
        true
    } else {
        all_regular(store, changes.drop_last()) && regular(
            changed_by(store, changes.drop_last()),
            changes.last(),
        )
    }
}

/// A handle that is retired stays retired and names no reminder, whatever is
/// put into the store, taken out of it or set in it afterwards.
pub proof fn lemma_retired_stays_retired(store: DbView, key: u64, id: u64, changes: Seq<Change>)
    requires
        retired(store, key, id),
        !holds(store, key, id),
        all_regular(store, changes),
    ensures
        retired(changed_by(store, changes), key, id),
        !holds(changed_by(store, changes), key, id),
    decreases changes.len(),
{
    if changes.len() > 0 {
        lemma_retired_stays_retired(store, key, id, changes.drop_last());
    }
}

/// A reminder that was put in is held, under a handle that was free, and every
/// other reminder of the store is held as before.
pub proof fn lemma_inserted_is_held(store: DbView, key: u64, id: u64, reminder: ReminderView)
    ensures
        holds(with_reminder(store, key, id, reminder), key, id),
        with_reminder(store, key, id, reminder)[key].reminders[id] == reminder,
        with_reminder(store, key, id, reminder)[key].tz == channel_of(store, key).tz,
        forall|other_key: u64, other: u64|
            (other_key, other) != (key, id) ==> (#[trigger] holds(
                with_reminder(store, key, id, reminder),
                other_key,
                other,
            ) <==> holds(store, other_key, other)),
{
}

/// One channel as it is kept between two runs: its number, its zone and its
/// reminders.
pub type Saved = (u64, Timezone, Vec<Reminder>);

/// Whether `saved` keeps `store`: one record for each channel of the store,
/// with the channel's zone and exactly its reminders.
pub open spec fn saved_as(store: DbView, saved: Seq<Saved>) -> bool {
    &&& forall|i: int, j: int|
        0 <= i < j < saved.len() ==> (#[trigger] saved[i]).0 != (#[trigger] saved[j]).0
    &&& forall|key: u64| #[trigger]
        store.dom().contains(key) ==> exists|i: int|
            0 <= i < saved.len() && (#[trigger] saved[i]).0 == key
    &&& forall|i: int|
        0 <= i < saved.len() ==> {
            &&& store.dom().contains((#[trigger] saved[i]).0)
            &&& store[saved[i].0].tz == saved[i].1@
            &&& lists(store[saved[i].0].reminders, views(saved[i].2@))
        }
}

/// Whether record `i` is the last among the first `n` of `saved` for its
/// channel.
pub open spec fn last_for_channel(saved: Seq<Saved>, n: int, i: int) -> bool {
    forall|j: int| i < j < n ==> (#[trigger] saved[j]).0 != saved[i].0
}

/// Whether `store` is what the first `n` records of `saved` make: a channel
/// for each number that a record has, with the zone and exactly the reminders
/// of the last record for that number, and no handle retired.
pub open spec fn opened_upto(saved: Seq<Saved>, n: int, store: DbView) -> bool {
    &&& forall|key: u64| #[trigger]
        store.dom().contains(key) ==> exists|i: int| 0 <= i < n && (#[trigger] saved[i]).0 == key
    &&& forall|i: int|
        0 <= i < n ==> {
            &&& store.dom().contains((#[trigger] saved[i]).0)
            &&& last_for_channel(saved, n, i) ==> {
                &&& store[saved[i].0].tz == saved[i].1@
                &&& store[saved[i].0].retired == Set::<u64>::empty()
                &&& lists(store[saved[i].0].reminders, views(saved[i].2@))
            }
        }
}

/// Whether `store` is what the records `saved` make.
pub open spec fn opened_from(saved: Seq<Saved>, store: DbView) -> bool {
    opened_upto(saved, saved.len() as int, store)
}

/// Whether two collections hold the same reminders, each as often in the one
/// as in the other, whatever their handles.
pub open spec fn same_reminders(
    one: Map<u64, ReminderView>,
    other: Map<u64, ReminderView>,
) -> bool {
    exists|listed: Seq<ReminderView>| #[trigger] lists(one, listed) && lists(other, listed)
}

/// Whether two stores have the same channels, each with the same zone and the
/// same reminders in both.
pub open spec fn same_store(one: DbView, other: DbView) -> bool {
    &&& one.dom() == other.dom()
    &&& forall|key: u64| #[trigger]
        one.dom().contains(key) ==> {
            &&& one[key].tz == other[key].tz
            &&& same_reminders(one[key].reminders, other[key].reminders)
            &&& one[key].reminders.dom().len() == other[key].reminders.dom().len()
        }
}

/// A store that is kept and opened again has the channels it had, each with
/// its zone and with as many reminders as before, of the same kind and text.
pub proof fn lemma_reopen_keeps_reminders(before: DbView, saved: Seq<Saved>, after: DbView)
    requires
        saved_as(before, saved),
        opened_from(saved, after),
    ensures
        same_store(before, after),
{
    assert forall|key: u64| before.dom().contains(key) implies after.dom().contains(key) by {
        let i = choose|i: int| 0 <= i < saved.len() && (#[trigger] saved[i]).0 == key;
        assert(after.dom().contains(saved[i].0));
    }
    assert forall|key: u64| after.dom().contains(key) implies before.dom().contains(key) by {
        let i = choose|i: int| 0 <= i < saved.len() && (#[trigger] saved[i]).0 == key;
        assert(before.dom().contains(saved[i].0));
    }
    assert(before.dom() =~= after.dom());
    assert forall|key: u64| #[trigger] before.dom().contains(key) implies {
        &&& before[key].tz == after[key].tz
        &&& same_reminders(before[key].reminders, after[key].reminders)
        &&& before[key].reminders.dom().len() == after[key].reminders.dom().len()
    } by {
        let i = choose|i: int| 0 <= i < saved.len() && (#[trigger] saved[i]).0 == key;
        assert(last_for_channel(saved, saved.len() as int, i));
        let listed = views(saved[i].2@);
        assert(lists(before[key].reminders, listed) && lists(after[key].reminders, listed));
        lemma_lists_count(before[key].reminders, listed);
        lemma_lists_count(after[key].reminders, listed);
    }
}

/// Whether the channel of `entry` is among the first `upto` of `keys`.
spec fn channel_among(keys: Seq<u64>, upto: int, entry: Entry) -> bool {
    exists|j: int| 0 <= j < upto && keys[j] == entry.0
}

/// The reminders and time zones of all channels.
pub struct Db {
    data: HashMap<u64, ChannelData>,
}

impl View for Db {
    type V = DbView;

    closed spec fn view(&self) -> DbView {
        self.data@.map_values(|channel: ChannelData| channel@)
    }
}

impl Db {
    /// A store without channels.
    pub fn new() -> (db: Db)
        ensures
            db@ == Map::<u64, ChannelView>::empty(),
    {
        let db = Db { data: HashMap::new() };
        db
    }

    /// The store that the records `saved` make: for each number that a record
    /// has a channel with the zone and a copy of the reminders of the last
    /// record for that number. The reminders get new handles.
    pub fn open(saved: &Vec<Saved>) -> (db: Db)
        requires
            forall|i: int| 0 <= i < saved@.len() ==> (#[trigger] saved@[i]).2@.len() <= SLOT_LIMIT,
        ensures
            opened_from(saved@, db@),
    {
        let mut db = Db::new();
        let mut n: usize = 0;
        while n < saved.len()
            invariant
                n <= saved.len(),
                forall|i: int|
                    0 <= i < saved@.len() ==> (#[trigger] saved@[i]).2@.len() <= SLOT_LIMIT,
                opened_upto(saved@, n as int, db@),
            decreases saved.len() - n,
        {
            let ghost before = db@;
            let key = saved[n].0;
            let channel = ChannelData::from_parts(saved[n].1.clone(), &saved[n].2);
            db.data.insert(key, channel);
            proof {
                assert(db@ =~= before.insert(key, channel@));
                assert forall|i: int| 0 <= i < n + 1 implies {
                    &&& db@.dom().contains((#[trigger] saved@[i]).0)
                    &&& last_for_channel(saved@, n + 1, i) ==> {
                        &&& db@[saved@[i].0].tz == saved@[i].1@
                        &&& db@[saved@[i].0].retired == Set::<u64>::empty()
                        &&& lists(db@[saved@[i].0].reminders, views(saved@[i].2@))
                    }
                } by {
                    if i < n && last_for_channel(saved@, n + 1, i) {
                        assert(saved@[n as int].0 != saved@[i].0);
                        assert(last_for_channel(saved@, n as int, i));
                    }
                }
                assert forall|k: u64| #[trigger] db@.dom().contains(k) implies exists|i: int|
                    0 <= i < n + 1 && (#[trigger] saved@[i]).0 == k by {
                    if k == key {
                        assert(saved@[n as int].0 == k);
                    } else {
                        assert(before.dom().contains(k));
                        let i = choose|i: int| 0 <= i < n && (#[trigger] saved@[i]).0 == k;
                        assert(saved@[i].0 == k);
                    }
                }
            }
            n = n + 1;
        }
        db
    }

    /// What is to be kept of the store for a later run: one record for each
    /// channel, with its zone and a copy of its reminders.
    pub fn persist(&self) -> (saved: Vec<Saved>)
        ensures
            saved_as(self@, saved@),
            forall|i: int| 0 <= i < saved@.len() ==> (#[trigger] saved@[i]).2@.len() <= SLOT_LIMIT,
    {
        let keys = self.channels();
        let mut saved: Vec<Saved> = Vec::new();
        let mut a: usize = 0;
        while a < keys.len()
            invariant
                a <= keys.len(),
                saved@.len() == a,
                keys@.no_duplicates(),
                keys@.to_set() == self@.dom(),
                forall|i: int| 0 <= i < a ==> (#[trigger] saved@[i]).0 == keys@[i],
                forall|i: int| 0 <= i < a ==> (#[trigger] saved@[i]).2@.len() <= SLOT_LIMIT,
                forall|i: int|
                    0 <= i < a ==> {
                        &&& self@[(#[trigger] saved@[i]).0].tz == saved@[i].1@
                        &&& lists(self@[saved@[i].0].reminders, views(saved@[i].2@))
                    },
            decreases keys.len() - a,
        {
            let key = keys[a];
            assert(self@.dom().contains(key));
            match self.data.get(&key) {
                Some(channel) => {
                    saved.push((key, channel.tz().clone(), channel.reminders()));
                },
                None => {
                    assert(false);
                },
            }
            a = a + 1;
        }
        proof {
            assert forall|key: u64| #[trigger] self@.dom().contains(key) implies exists|i: int|
                0 <= i < saved@.len() && (#[trigger] saved@[i]).0 == key by {
                assert(keys@.to_set().contains(key));
                let j = choose|j: int| 0 <= j < keys@.len() && keys@[j] == key;
                assert(saved@[j].0 == key);
            }
            assert forall|i: int| 0 <= i < saved@.len() implies self@.dom().contains(
                (#[trigger] saved@[i]).0,
            ) by {
                assert(keys@.contains(keys@[i]));
            }
        }
        saved
    }

    /// Stores `data` in channel `key`, which is made where the store had none,
    /// and returns the handle under which the channel now holds it: one that
    /// no reminder of the channel has, and that is not retired.
    pub fn insert(&mut self, key: u64, data: Reminder) -> (id: ReminderId)
        requires
            has_room(old(self)@, key),
        ensures
            !holds(old(self)@, key, id@),
            !retired(old(self)@, key, id@),
            final(self)@ == with_reminder(old(self)@, key, id@, data@),
    {
        let mut channel = match self.data.remove(&key) {
            Some(channel) => channel,
            None => ChannelData::default(),
        };
        let id = channel.insert(data);
        self.data.insert(key, channel);
        id
    }

    /// Takes the reminder `inner_key` out of channel `key`. Where there is no
    /// such reminder, or no such channel, nothing changes.
    pub fn remove(&mut self, key: u64, inner_key: ReminderId)
        ensures
            final(self)@ == without_reminder(old(self)@, key, inner_key@),
    {
        match self.data.remove(&key) {
            Some(mut channel) => {
                let _ = channel.remove(inner_key);
                self.data.insert(key, channel);
            },
            None => {},
        }
    }

    /// The zone of channel `key`, if the store has that channel.
    pub fn tz(&self, key: u64) -> (tz: Option<Timezone>)
        ensures
            match tz {
                Some(tz) => self@.dom().contains(key) && tz@ == self@[key].tz,
                None => !self@.dom().contains(key),
            },
    {
        match self.data.get(&key) {
            Some(channel) => Some(channel.tz().clone()),
            None => None,
        }
    }

    /// Sets the zone of channel `key`, which is made where the store had none,
    /// to the one called `tz_str`. A name that the database does not hold is
    /// refused, and the store stays as it was.
    pub fn set_tz(&mut self, key: u64, tz_str: &str) -> (done: Result<(), InvalidTimezone>)
        ensures
            match done {
                Ok(_) => is_iana_zone(tz_str@) && final(self)@ == with_tz(old(self)@, key, tz_str@),
                Err(e) => !is_iana_zone(tz_str@) && e.name@ == tz_str@ && final(self)@ == old(
                    self,
                )@,
            },
    {
        let tz = match Timezone::parse(tz_str) {
            Ok(tz) => tz,
            Err(e) => {
                return Err(e);
            },
        };
        let mut channel = match self.data.remove(&key) {
            Some(channel) => channel,
            None => ChannelData::default(),
        };
        channel.put_tz(tz);
        self.data.insert(key, channel);
        Ok(())
    }

    /// Whether channel `key` has room for one more reminder.
    pub fn has_room(&self, key: u64) -> (room: bool)
        ensures
            room == has_room(self@, key),
    {
        match self.data.get(&key) {
            Some(channel) => channel.len() < SLOT_LIMIT,
            None => true,
        }
    }

    /// Whether channel `key` has a reminder with the handle `inner_key`. It
    /// has none with a handle that is retired.
    pub fn has_reminder(&self, key: u64, inner_key: ReminderId) -> (held: bool)
        ensures
            held == holds(self@, key, inner_key@),
            retired(self@, key, inner_key@) ==> !held,
    {
        match self.data.get(&key) {
            Some(channel) => channel.contains(inner_key),
            None => false,
        }
    }

    /// Channel `key`, if the store has it.
    pub fn channel_data(&self, key: u64) -> (channel: Option<&ChannelData>)
        ensures
            match channel {
                Some(channel) => self@.dom().contains(key) && channel@ == self@[key],
                None => !self@.dom().contains(key),
            },
    {
        self.data.get(&key)
    }

    /// Every reminder of the store, with its channel, the channel's zone and its
    /// handle.
    pub fn iter(&self) -> (entries: Vec<Entry>)
        ensures
            walks(self@, entries@),
    {
        let keys = self.channels();
        let mut entries: Vec<Entry> = Vec::new();
        let mut a: usize = 0;
        while a < keys.len()
            invariant
                a <= keys.len(),
                keys@.no_duplicates(),
                keys@.to_set() == self@.dom(),
                forall|i: int| 0 <= i < entries@.len() ==> listed_in(self@, #[trigger] entries@[i]),
                forall|i: int|
                    0 <= i < entries@.len() ==> channel_among(
                        keys@,
                        a as int,
                        #[trigger] entries@[i],
                    ),
                forall|j: int, id: u64|
                    0 <= j < a && #[trigger] holds(self@, keys@[j], id) ==> exists|i: int|
                        0 <= i < entries@.len() && #[trigger] place(entries@[i]) == (keys@[j], id),
                forall|i: int, j: int|
                    0 <= i < j < entries@.len() ==> #[trigger] place(entries@[i]) != #[trigger] place(
                        entries@[j],
                    ),
            decreases keys.len() - a,
        {
            let key = keys[a];
            assert(self@.dom().contains(key));
            let channel = match self.data.get(&key) {
                Some(channel) => channel,
                None => {
                    assert(false);
                    return entries;
                },
            };
            let found = channel.entries();
            let ghost base = entries@;
            let ghost ids = Seq::new(found@.len(), |t: int| found@[t].0@);
            let mut b: usize = 0;
            while b < found.len()
                invariant
                    b <= found.len(),
                    a < keys.len(),
                    key == keys@[a as int],
                    keys@.no_duplicates(),
                    self@.dom().contains(key),
                    channel@ == self@[key],
                    ids == Seq::new(found@.len(), |t: int| found@[t].0@),
                    holds_exactly(
                        channel@.reminders,
                        ids,
                        Seq::new(found@.len(), |t: int| found@[t].1@),
                    ),
                    entries@.len() == base.len() + b,
                    forall|i: int| 0 <= i < base.len() ==> entries@[i] == base[i],
                    forall|t: int|
                        0 <= t < found@.len() ==> storable((#[trigger] found@[t]).1@.kind),
                    forall|t: int|
                        0 <= t < b ==> place(#[trigger] entries@[base.len() + t]) == (key, ids[t]),
                    forall|i: int|
                        0 <= i < entries@.len() ==> listed_in(self@, #[trigger] entries@[i]),
                    forall|i: int|
                        0 <= i < base.len() ==> channel_among(keys@, a as int, #[trigger] base[i]),
                    forall|i: int, j: int|
                        0 <= i < j < base.len() ==> #[trigger] place(base[i]) != #[trigger] place(
                            base[j],
                        ),
                decreases found.len() - b,
            {
                let id = found[b].0;
                let reminder = found[b].1.clone();
                proof {
                    assert(ids[b as int] == id@);
                }
                entries.push((key, channel.tz().clone(), id, reminder));
                b = b + 1;
            }
            proof {
                assert forall|i: int, j: int| 0 <= i < j < entries@.len() implies #[trigger] place(
                    entries@[i],
                ) != #[trigger] place(entries@[j]) by {
                    if j < base.len() {
                        assert(entries@[i] == base[i] && entries@[j] == base[j]);
                    } else if i < base.len() {
                        assert(entries@[i] == base[i]);
                        assert(channel_among(keys@, a as int, base[i]));
                        let k = choose|k: int| 0 <= k < a && keys@[k] == base[i].0;
                        assert(place(entries@[base.len() + (j - base.len())]).0 == key);
                    } else {
                        assert(place(entries@[base.len() + (i - base.len())]) == (
                            key,
                            ids[i - base.len()],
                        ));
                        assert(place(entries@[base.len() + (j - base.len())]) == (
                            key,
                            ids[j - base.len()],
                        ));
                    }
                }
                assert forall|i: int| 0 <= i < entries@.len() implies channel_among(
                    keys@,
                    a + 1,
                    #[trigger] entries@[i],
                ) by {
                    if i < base.len() {
                        assert(entries@[i] == base[i]);
                        assert(channel_among(keys@, a as int, base[i]));
                        let k = choose|k: int| 0 <= k < a && keys@[k] == base[i].0;
                        assert(keys@[k] == entries@[i].0);
                    } else {
                        assert(place(entries@[base.len() + (i - base.len())]) == (
                            key,
                            ids[i - base.len()],
                        ));
                        assert(keys@[a as int] == entries@[i].0);
                    }
                }
                assert forall|j: int, id: u64|
                    0 <= j < a + 1 && #[trigger] holds(self@, keys@[j], id) implies exists|i: int|
                    0 <= i < entries@.len() && #[trigger] place(entries@[i]) == (keys@[j], id) by {
                    if j < a {
                        let i = choose|i: int|
                            0 <= i < base.len() && #[trigger] place(base[i]) == (keys@[j], id);
                        assert(entries@[i] == base[i]);
                        assert(place(entries@[i]) == (keys@[j], id));
                    } else {
                        assert(ids.to_set().contains(id));
                        let t = choose|t: int| 0 <= t < ids.len() && ids[t] == id;
                        assert(place(entries@[base.len() + t]) == (key, id));
                    }
                }
            }
            a = a + 1;
        }
        proof {
            assert forall|key: u64, id: u64| #[trigger] holds(self@, key, id) implies exists|i: int|
                0 <= i < entries@.len() && #[trigger] place(entries@[i]) == (key, id) by {
                assert(keys@.to_set().contains(key));
                let j = choose|j: int| 0 <= j < keys@.len() && keys@[j] == key;
                assert(holds(self@, keys@[j], id));
            }
        }
        entries
    }

    /// The numbers of the store's channels, each once.
    pub fn channels(&self) -> (keys: Vec<u64>)
        ensures
            keys@.no_duplicates(),
            keys@.to_set() == self@.dom(),
    {
        let mut keys: Vec<u64> = Vec::new();
        for key in it: self.data.keys()
            invariant
                keys@.len() == it.index(),
                forall|j: int| 0 <= j < keys@.len() ==> keys@[j] == *it.seq()[j],
        {
            keys.push(*key);
        }
        proof {
            let walked = self.data.keys().remaining();
            assert(keys@ =~= walked.unref());
        }
        keys
    }
}

} // verus!
