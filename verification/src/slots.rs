//! The slot map that holds a channel's reminders, and what is taken on trust
//! of it.
//!
//! A key of the slot map travels as the 64-bit number that `KeyData::as_ffi`
//! makes of it: the slot's index in the low half, the slot's version in the
//! high half. The version of a key is odd, and `KeyData::from_ffi` sets its
//! lowest bit when it makes a key of a number.
//!
//! A slot counts its version up by one when a value is put in and by one when
//! it is taken out, so that a key which was taken out is below the slot's
//! version and is not given out again. The count is of 32 bits: taking out a
//! value under the last version starts the slot's count afresh.

use crate::reminder::{Reminder, ReminderView};
use crate::text::decimal_digits;
use slotmap::{DefaultKey, Key, KeyData, SlotMap};
use vstd::prelude::*;

verus! {

/// A slot map of reminders: slotmap's `SlotMap<DefaultKey, Reminder>`, of
/// which nothing is known but what the functions below say.
#[verifier::external_body]
pub struct Slots {
    map: SlotMap<DefaultKey, Reminder>,
}

/// The reminders that a slot map holds, each under the number of its key.
pub uninterp spec fn slot_contents(slots: Slots) -> Map<u64, ReminderView>;

/// The keys that a slot map has given out and taken back and will not give out
/// again: the odd versions below the present version of each slot, by their
/// numbers.
pub uninterp spec fn slot_spent(slots: Slots) -> Set<u64>;

/// The index of the slot of the key with the number `key`.
pub open spec fn key_index(key: u64) -> u64 {
    key & 0xffff_ffff
}

/// The version of the key with the number `key`.
pub open spec fn key_version(key: u64) -> u64 {
    key >> 32
}

/// The last version that a slot's count reaches.
pub const LAST_VERSION: u64 = 0xffff_ffff;

/// The index of the null key, under which a slot map holds nothing.
pub const NULL_INDEX: u64 = 0xffff_ffff;

/// No keys at all.
pub open spec fn no_keys() -> Set<u64> {
    Set::empty()
}

/// The keys that are spent once the value under `key` is taken out of a slot
/// map that holds `held` and has spent `spent`. A key that the map does not
/// hold changes nothing. A key that it holds is spent from then on; but under
/// the last version the slot's count starts afresh, and no key of that slot is
/// spent any more.
pub open spec fn spent_after(spent: Set<u64>, held: Map<u64, ReminderView>, key: u64) -> Set<u64> {
    if !held.dom().contains(key) {
        spent
    } else if key_version(key) == LAST_VERSION {
        Set::new(|other: u64| spent.contains(other) && key_index(other) != key_index(key))
    } else {
        spent.insert(key)
    }
}

/// The number of the key that `KeyData::from_ffi` makes of `raw`.
pub open spec fn key_number(raw: u64) -> u64 {
    raw | 0x1_0000_0000
}

/// The most reminders that one slot map takes: `SlotMap::insert` panics once
/// every one of its 2^32 - 1 slots, of which one is a sentinel, is in use.
pub const SLOT_LIMIT: usize = 0xffff_fffe;

/// No reminders at all.
pub open spec fn no_reminders() -> Map<u64, ReminderView> {
    Map::empty()
}

/// `SlotMap::new`: a slot map that holds nothing.
#[verifier::external_body]
pub(crate) fn slots_new() -> (slots: Slots)
    ensures
        slot_contents(slots) == no_reminders(),
        slot_spent(slots) == no_keys(),
{
    Slots { map: SlotMap::new() }
}

/// Whether `held` is a finite collection of `n` reminders, and `n` is no more
/// than a slot map takes.
pub open spec fn holds_count(held: Map<u64, ReminderView>, n: usize) -> bool {
    held.dom().finite() && held.dom().len() == n && n <= SLOT_LIMIT
}

/// `SlotMap::len`: the number of reminders held. A slot map holds finitely
/// many, each in a slot of its own, and has no more slots than `SLOT_LIMIT`
/// beside its sentinel.
#[verifier::external_body]
pub(crate) fn slots_len(slots: &Slots) -> (n: usize)
    ensures
        holds_count(slot_contents(*slots), n),
{
    slots.map.len()
}

/// `SlotMap::insert`: stores `value` in a slot that was vacant, or in a new
/// one, and returns the number of the key of that slot, which no reminder in
/// the map has and which is not spent: the value gets the next version of the
/// slot. Which slot it is the slot map decides; its index is below that of the
/// null key. It panics where every slot is in use, which `SLOT_LIMIT` keeps
/// clear of.
#[verifier::external_body]
pub(crate) fn slots_insert(slots: &mut Slots, value: Reminder) -> (raw: u64)
    requires
        slot_contents(*old(slots)).dom().len() < SLOT_LIMIT,
    ensures
        !slot_contents(*old(slots)).dom().contains(raw),
        !slot_spent(*old(slots)).contains(raw),
        key_number(raw) == raw,
        key_index(raw) < NULL_INDEX,
        slot_contents(*final(slots)) == slot_contents(*old(slots)).insert(raw, value@),
        slot_spent(*final(slots)) == slot_spent(*old(slots)),
{
    slots.map.insert(value).data().as_ffi()
}

/// `SlotMap::remove` with the key that `KeyData::from_ffi` makes of `raw`:
/// takes out the reminder under that key, if the map holds one, and returns
/// it. The slot's version goes up by one, wrapping after the last, so that the
/// key is spent from then on unless its version was the last.
#[verifier::external_body]
pub(crate) fn slots_remove(slots: &mut Slots, raw: u64) -> (taken: Option<
    Reminder,
>)
    ensures
        slot_contents(*final(slots)) == slot_contents(*old(slots)).remove(key_number(raw)),
        slot_spent(*final(slots)) == spent_after(
            slot_spent(*old(slots)),
            slot_contents(*old(slots)),
            key_number(raw),
        ),
        match taken {
            Some(r) => slot_contents(*old(slots)).dom().contains(key_number(raw))
                && slot_contents(*old(slots))[key_number(raw)] == r@,
            None => !slot_contents(*old(slots)).dom().contains(key_number(raw)),
        },
{
    slots.map.remove(DefaultKey::from(KeyData::from_ffi(raw)))
}

/// `SlotMap::contains_key` with the key that `KeyData::from_ffi` makes of
/// `raw`: whether the map holds a reminder under that key. It holds none under
/// a key that is spent: the slot's version has moved on.
#[verifier::external_body]
pub(crate) fn slots_contains(slots: &Slots, raw: u64) -> (held: bool)
    ensures
        held == slot_contents(*slots).dom().contains(key_number(raw)),
        held ==> !slot_spent(*slots).contains(key_number(raw)),
{
    slots.map.contains_key(DefaultKey::from(KeyData::from_ffi(raw)))
}

/// `SlotMap::get` with the key that `KeyData::from_ffi` makes of `raw`: the
/// reminder under that key, if the map holds one.
#[verifier::external_body]
pub(crate) fn slots_get(slots: &Slots, raw: u64) -> (found: Option<
    &Reminder,
>)
    ensures
        match found {
            Some(r) => slot_contents(*slots).dom().contains(key_number(raw)) && slot_contents(
                *slots,
            )[key_number(raw)] == r@,
            None => !slot_contents(*slots).dom().contains(key_number(raw)),
        },
{
    slots.map.get(DefaultKey::from(KeyData::from_ffi(raw)))
}

/// `SlotMap::keys`, each key as the number that `KeyData::as_ffi` makes of it:
/// the number of every key in use, each once, which are no more than
/// `SLOT_LIMIT`. The index of a key in use is below that of the null key.
#[verifier::external_body]
pub(crate) fn slots_keys(slots: &Slots) -> (raws: Vec<u64>)
    ensures
        raws@.no_duplicates(),
        raws@.len() <= SLOT_LIMIT,
        raws@.to_set() == slot_contents(*slots).dom(),
        forall|i: int|
            0 <= i < raws@.len() ==> key_number(#[trigger] raws@[i]) == raws@[i] && key_index(
                raws@[i],
            ) < NULL_INDEX,
{
    slots.map.keys().map(|k| k.data().as_ffi()).collect()
}

/// The JSON text that serde_json makes of the key with the number `key`: an
/// object of the slot's index and the slot's version, in this order and
/// without blanks, such as `{"idx":1,"version":1}`.
pub open spec fn key_json(key: u64) -> Seq<char> {
    "{\"idx\":"@ + decimal_digits((key & 0xffff_ffff) as nat) + ",\"version\":"@ + decimal_digits(
        (key >> 32) as nat,
    ) + "}"@
}

/// The number of the key that serde_json reads from `text`, if it reads one.
pub uninterp spec fn json_key(text: Seq<char>) -> Option<u64>;

/// `serde_json::to_string` of the key that `KeyData::from_ffi` makes of `raw`,
/// through the `Serialize` impl that slotmap gives its keys: it writes the
/// index and the version as the two fields of an object. Read back, the text
/// gives the key again, unless the key is the null key, whose version is not
/// kept.
#[verifier::external_body]
pub(crate) fn key_to_json(raw: u64) -> (text: String)
    ensures
        text@ == key_json(key_number(raw)),
        key_index(key_number(raw)) < NULL_INDEX ==> json_key(text@) == Some(key_number(raw)),
{
    serde_json::to_string(&DefaultKey::from(KeyData::from_ffi(raw))).unwrap_or_default()
}

/// `serde_json::from_str` of `text` as a key, through the `Deserialize` impl
/// that slotmap gives its keys, and the number of the key read. The number of
/// a key is its own key number.
#[verifier::external_body]
pub(crate) fn key_from_json(text: &str) -> (raw: Option<u64>)
    ensures
        raw == json_key(text@),
        raw matches Some(number) ==> key_number(number) == number,
{
    serde_json::from_str::<DefaultKey>(text).ok().map(|key| key.data().as_ffi())
}

} // verus!
