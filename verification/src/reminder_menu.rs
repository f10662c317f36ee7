//! The menu that lists the reminders of a channel and lets one of them be
//! deleted.
//!
//! The menu is a message with a list to pick a reminder from and two buttons,
//! `Done` and `Delete`. A pick comes back as the value of the picked entry, a
//! press as the identifier of the button pressed; the identifier of `Delete`
//! is the value of the entry that is picked.

use crate::db::{channel_of, without_reminder, DbView};
use crate::manager::Manager;
use crate::message::{
    plain_message, Button, ButtonStyle, ButtonView, MessageForm, MessageFormView, SelectOption,
    SelectOptionView,
};
use crate::reminder::{
    holds_exactly, KindView, Reminder, ReminderId, ReminderType, ReminderView,
};
use crate::schedule::Schedule;
use crate::slots::{json_key, key_from_json, key_index, key_json, key_to_json, NULL_INDEX};
use crate::text::str_eq;
use crate::zone::{has_date, rfc2822, rfc2822_text, Timezone, FIRST_DATE, LAST_DATE};
use vstd::prelude::*;

verus! {

/// The instant at which a reminder of kind `kind` is next due in the zone
/// `tz` at `now`.
pub open spec fn next_instant(kind: KindView, tz: Seq<char>, now: i64) -> Option<i64> {
    match kind {
        KindView::Once(at) => Some(at),
        KindView::Scheduled(expr) => Schedule::next_due(expr, tz, now),
    }
}

/// The date at which a reminder of kind `kind` is next due, as the menu shows
/// it: empty where the reminder is due no more, or in a year that cannot be
/// written out.
pub open spec fn due_text(kind: KindView, tz: Seq<char>, now: i64) -> Seq<char> {
    match next_instant(kind, tz, now) {
        Some(at) => if has_date(at) {
            rfc2822_text(at, tz)
        } else {
            Seq::empty()
        },
        None => Seq::empty(),
    }
}

/// The entry of the list for the reminder `reminder` with the handle `key`.
pub open spec fn menu_entry(
    key: u64,
    reminder: ReminderView,
    tz: Seq<char>,
    selected: Option<Seq<char>>,
    now: i64,
) -> SelectOptionView {
    SelectOptionView {
        label: reminder.msg,
        description: due_text(reminder.kind, tz, now),
        value: key_json(key),
        default_selection: selected == Some(key_json(key)),
    }
}

/// The two buttons of the menu. `Delete` carries the value of the picked
/// entry; while nothing is picked it cannot be pressed.
pub open spec fn menu_buttons(selected: Option<Seq<char>>) -> Seq<ButtonView> {
    seq![
        ButtonView {
            style: ButtonStyle::Secondary,
            label: "Done"@,
            custom_id: "done"@,
            disabled: false,
        },
        ButtonView {
            style: ButtonStyle::Danger,
            label: "Delete"@,
            custom_id: match selected {
                Some(value) => value,
                None => "delete"@,
            },
            disabled: selected is None,
        },
    ]
}

/// What a `ReminderMenu` stands for.
pub struct ReminderMenuView {
    pub tz: Seq<char>,
    pub reminders: Seq<(u64, ReminderView)>,
    pub selected: Option<Seq<char>>,
}

/// The message that shows the menu `menu` at `now`.
pub open spec fn menu_message(menu: ReminderMenuView, now: i64) -> MessageFormView {
    if menu.reminders.len() > 0 {
        MessageFormView {
            content: "Channel timezone: "@ + menu.tz,
            options: Seq::new(
                menu.reminders.len(),
                |i: int|
                    menu_entry(
                        menu.reminders[i].0,
                        menu.reminders[i].1,
                        menu.tz,
                        menu.selected,
                        now,
                    ),
            ),
            buttons: menu_buttons(menu.selected),
        }
    } else {
        plain_message("no reminders"@)
    }
}

/// `reminders` without the entries that have the handle `key`, the others in
/// their order.
pub open spec fn without_key(reminders: Seq<(u64, ReminderView)>, key: u64) -> Seq<
    (u64, ReminderView),
>
    decreases reminders.len(),
{
    if reminders.len() == 0 {
        Seq::empty()
    } else if reminders.last().0 == key {
        without_key(reminders.drop_last(), key)
    } else {
        without_key(reminders.drop_last(), key).push(reminders.last())
    }
}

/// The kind of thing that was used in a message.
#[derive(Clone, Copy, Debug, PartialEq, Eq, Structural)]
pub enum ComponentType {
    /// The list: an entry was picked.
    SelectMenu,
    /// A button: it was pressed.
    Button,
    /// Anything else.
    Other,
}

/// What came back from a message: the kind of thing that was used, its
/// identifier, and the values that were picked.
#[derive(Debug)]
pub struct Component {
    pub component_type: ComponentType,
    pub custom_id: String,
    pub values: Vec<String>,
}

/// The first of the values that were picked.
pub open spec fn first_value(component: Component) -> Option<Seq<char>> {
    if component.values@.len() > 0 {
        Some(component.values@[0]@)
    } else {
        None
    }
}

/// Whether `component` asks for a reminder to be deleted: a press of a button
/// other than `Done` whose identifier spells a handle.
pub open spec fn deletes(component: Component) -> bool {
    &&& component.component_type is Button
    &&& component.custom_id@ != "done"@
    &&& json_key(component.custom_id@) is Some
}

/// The menu `menu` and the store `store` after `component` came back for
/// channel `channel_id`, and whether the menu goes on. A pick is noted. A press
/// of `Done` ends the menu. Any other press deletes the reminder whose handle
/// the button's identifier spells, from the menu and from the store, and
/// nothing is picked any more; an identifier that spells no handle changes
/// nothing.
pub open spec fn menu_after(
    menu: ReminderMenuView,
    store: DbView,
    channel_id: u64,
    component: Component,
) -> (ReminderMenuView, DbView, bool) {
    match component.component_type {
        ComponentType::SelectMenu => (
            ReminderMenuView { selected: first_value(component), ..menu },
            store,
            true,
        ),
        ComponentType::Button => if component.custom_id@ == "done"@ {
            (menu, store, false)
        } else {
            match json_key(component.custom_id@) {
                Some(key) => (
                    ReminderMenuView {
                        reminders: without_key(menu.reminders, key),
                        selected: None,
                        ..menu
                    },
                    without_reminder(store, channel_id, key),
                    true,
                ),
                None => (menu, store, true),
            }
        },
        ComponentType::Other => (menu, store, true),
    }
}

/// Whether `entry` is one of `reminders`.
pub open spec fn among(reminders: Seq<(u64, ReminderView)>, entry: (u64, ReminderView)) -> bool {
    exists|i: int| 0 <= i < reminders.len() && reminders[i] == entry
}

/// Whether one of `reminders` has the handle `key`.
pub open spec fn has_handle(reminders: Seq<(u64, ReminderView)>, key: u64) -> bool {
    exists|i: int| 0 <= i < reminders.len() && (#[trigger] reminders[i]).0 == key
}

/// Whether `reminders` are as a menu holds them: no handle comes twice, and
/// none is the null handle.
pub open spec fn distinct_handles(reminders: Seq<(u64, ReminderView)>) -> bool {
    &&& forall|i: int, j: int|
        0 <= i < j < reminders.len() ==> (#[trigger] reminders[i]).0 != (#[trigger] reminders[j]).0
    &&& forall|i: int|
        0 <= i < reminders.len() ==> key_index((#[trigger] reminders[i]).0) < NULL_INDEX
}

/// What is left of a menu's reminders without the handle `key`: reminders of
/// the menu, as a menu holds them, none of them under `key`, and one fewer
/// than before where the menu had the handle.
pub proof fn lemma_without_key(reminders: Seq<(u64, ReminderView)>, key: u64)
    requires
        distinct_handles(reminders),
    ensures
        distinct_handles(without_key(reminders, key)),
        forall|i: int|
            0 <= i < without_key(reminders, key).len() ==> among(
                reminders,
                #[trigger] without_key(reminders, key)[i],
            ),
        !has_handle(without_key(reminders, key), key),
        forall|i: int|
            0 <= i < reminders.len() && (#[trigger] reminders[i]).0 != key ==> among(
                without_key(reminders, key),
                reminders[i],
            ),
        without_key(reminders, key).len() == if has_handle(reminders, key) {
            reminders.len() - 1
        } else {
            reminders.len() as int
        },
    decreases reminders.len(),
{
    if reminders.len() > 0 {
        let front = reminders.drop_last();
        let last = reminders.last();
        let rest = without_key(front, key);
        lemma_without_key(front, key);
        let left = without_key(reminders, key);
        assert forall|i: int| 0 <= i < left.len() implies among(reminders, #[trigger] left[i]) by {
            if i < rest.len() {
                assert(among(front, rest[i]));
                let t = choose|t: int| 0 <= t < front.len() && front[t] == rest[i];
                assert(reminders[t] == left[i]);
            } else {
                assert(reminders[reminders.len() - 1] == left[i]);
            }
        }
        assert forall|i: int| 0 <= i < reminders.len() && (#[trigger] reminders[i]).0
            != key implies among(left, reminders[i]) by {
            if i < front.len() {
                assert(front[i] == reminders[i]);
                assert(among(rest, front[i]));
                let t = choose|t: int| 0 <= t < rest.len() && rest[t] == front[i];
                assert(left[t] == reminders[i]);
            } else {
                assert(left[left.len() - 1] == reminders[i]);
            }
        }
        if last.0 == key {
            assert(reminders[reminders.len() - 1].0 == key);
            assert(!has_handle(front, key)) by {
                if has_handle(front, key) {
                    let t = choose|t: int| 0 <= t < front.len() && (#[trigger] front[t]).0 == key;
                    assert(reminders[t].0 == reminders[reminders.len() - 1].0);
                }
            }
        } else {
            assert forall|i: int, j: int| 0 <= i < j < left.len() implies (#[trigger] left[i]).0 != (
            #[trigger] left[j]).0 by {
                if j == rest.len() {
                    assert(among(front, rest[i]));
                    let t = choose|t: int| 0 <= t < front.len() && front[t] == rest[i];
                    assert(reminders[t].0 != reminders[reminders.len() - 1].0);
                }
            }
            assert(has_handle(reminders, key) == has_handle(front, key)) by {
                if has_handle(front, key) {
                    let t = choose|t: int| 0 <= t < front.len() && (#[trigger] front[t]).0 == key;
                    assert(reminders[t].0 == key);
                }
                if has_handle(reminders, key) {
                    let t = choose|t: int|
                        0 <= t < reminders.len() && (#[trigger] reminders[t]).0 == key;
                    assert(front[t].0 == key);
                }
            }
        }
    }
}

/// Whether the value that the menu's list has for each of `reminders` spells
/// the handle of that reminder when it comes back as a button's identifier.
pub open spec fn spelled(reminders: Seq<(u64, ReminderView)>) -> bool {
    forall|i: int|
        0 <= i < reminders.len() ==> json_key(key_json((#[trigger] reminders[i]).0)) == Some(
            reminders[i].0,
        )
}

/// A press of the button that carries the value of an entry of the menu
/// deletes the reminder of that entry and no other, from the menu and from the
/// store, and leaves nothing picked.
pub proof fn lemma_delete_removes_shown(
    menu: ReminderMenuView,
    store: DbView,
    channel_id: u64,
    component: Component,
    i: int,
)
    requires
        distinct_handles(menu.reminders),
        spelled(menu.reminders),
        0 <= i < menu.reminders.len(),
        component.component_type is Button,
        component.custom_id@ == key_json(menu.reminders[i].0),
    ensures
        ({
            let after = menu_after(menu, store, channel_id, component);
            let key = menu.reminders[i].0;
            &&& after.1 == without_reminder(store, channel_id, key)
            &&& after.2
            &&& after.0.selected is None
            &&& after.0.reminders == without_key(menu.reminders, key)
            &&& after.0.reminders.len() == menu.reminders.len() - 1
            &&& !has_handle(after.0.reminders, key)
            &&& forall|j: int|
                0 <= j < menu.reminders.len() && j != i ==> among(
                    after.0.reminders,
                    #[trigger] menu.reminders[j],
                )
        }),
{
    let key = menu.reminders[i].0;
    assert(key_json(key) != "done"@) by {
        reveal_strlit("{\"idx\":");
        reveal_strlit("done");
        assert(key_json(key)[0] == '{');
        assert("done"@[0] == 'd');
    }
    assert(json_key(key_json(key)) == Some(key));
    lemma_without_key(menu.reminders, key);
    assert(has_handle(menu.reminders, key));
}

/// The menu of one channel.
#[derive(Debug)]
pub struct ReminderMenu {
    tz: Timezone,
    reminders: Vec<(ReminderId, Reminder)>,
    selected: Option<String>,
}

impl View for ReminderMenu {
    type V = ReminderMenuView;

    closed spec fn view(&self) -> ReminderMenuView {
        ReminderMenuView {
            tz: self.tz@,
            reminders: Seq::new(
                self.reminders@.len(),
                |i: int| (self.reminders@[i].0@, self.reminders@[i].1@),
            ),
            selected: match self.selected {
                Some(value) => Some(value@),
                None => None,
            },
        }
    }
}

impl ReminderMenu {
    /// Every menu holds its reminders each under a handle of its own.
    #[verifier::type_invariant]
    pub open spec fn in_order(self) -> bool {
        distinct_handles(self@.reminders)
    }

    /// The menu of channel `channel_id`, with nothing picked: the channel's
    /// zone and its reminders, or UTC and none where the store has no such
    /// channel.
    pub fn new(manager: &Manager, channel_id: u64) -> (menu: ReminderMenu)
        ensures
            menu@.tz == channel_of(manager@, channel_id).tz,
            menu@.selected is None,
            holds_exactly(
                channel_of(manager@, channel_id).reminders,
                Seq::new(menu@.reminders.len(), |i: int| menu@.reminders[i].0),
                Seq::new(menu@.reminders.len(), |i: int| menu@.reminders[i].1),
            ),
            distinct_handles(menu@.reminders),
    {
        match manager.channel_data(channel_id) {
            Some(channel) => {
                let reminders = channel.entries();
                proof {
                    let ids = Seq::new(reminders@.len(), |i: int| reminders@[i].0@);
                    let held = Seq::new(
                        reminders@.len(),
                        |i: int| (reminders@[i].0@, reminders@[i].1@),
                    );
                    assert forall|i: int, j: int| 0 <= i < j < held.len() implies (
                    #[trigger] held[i]).0 != (#[trigger] held[j]).0 by {
                        assert(ids[i] != ids[j]);
                    }
                    assert(distinct_handles(held));
                }
                let menu = ReminderMenu { tz: channel.tz().clone(), reminders, selected: None };
                proof {
                    assert(Seq::new(menu@.reminders.len(), |i: int| menu@.reminders[i].0)
                        =~= Seq::new(reminders@.len(), |i: int| reminders@[i].0@));
                    assert(Seq::new(menu@.reminders.len(), |i: int| menu@.reminders[i].1)
                        =~= Seq::new(reminders@.len(), |i: int| reminders@[i].1@));
                }
                menu
            },
            None => {
                let menu = ReminderMenu {
                    tz: Timezone::utc(),
                    reminders: Vec::new(),
                    selected: None,
                };
                proof {
                    let ids = Seq::new(menu@.reminders.len(), |i: int| menu@.reminders[i].0);
                    assert(ids.to_set() =~= Set::<u64>::empty());
                }
                menu
            },
        }
    }

    /// Whether `component` asks for a reminder to be deleted.
    pub fn deletes(component: &Component) -> (asked: bool)
        ensures
            asked == deletes(*component),
    {
        match component.component_type {
            ComponentType::Button => !str_eq(component.custom_id.as_str(), "done")
                && key_from_json(component.custom_id.as_str()).is_some(),
            _ => false,
        }
    }

    /// Takes out of the menu the entries with the handle `key`.
    fn forget(&mut self, key: u64)
        ensures
            final(self)@ == (ReminderMenuView {
                reminders: without_key(old(self)@.reminders, key),
                ..old(self)@
            }),
    {
        let mut kept: Vec<(ReminderId, Reminder)> = Vec::new();
        let ghost all = self@.reminders;
        let mut i: usize = 0;
        while i < self.reminders.len()
            invariant
                i <= self.reminders.len(),
                all == self@.reminders,
                *self == *old(self),
                Seq::new(kept@.len(), |j: int| (kept@[j].0@, kept@[j].1@)) == without_key(
                    all.take(i as int),
                    key,
                ),
            decreases self.reminders.len() - i,
        {
            proof {
                let upto = all.take(i + 1);
                assert(upto.drop_last() =~= all.take(i as int));
            }
            if self.reminders[i].0.number() != key {
                let ghost before = Seq::new(kept@.len(), |j: int| (kept@[j].0@, kept@[j].1@));
                kept.push((self.reminders[i].0, self.reminders[i].1.clone()));
                assert(Seq::new(kept@.len(), |j: int| (kept@[j].0@, kept@[j].1@)) =~= before.push(
                    all[i as int],
                ));
            }
            i = i + 1;
        }
        proof {
            assert(all.take(i as int) =~= all);
            use_type_invariant(&*self);
            lemma_without_key(all, key);
        }
        self.reminders = kept;
    }

    /// Takes what came back from the menu's message for channel `channel_id`
    /// and returns the message to show in its place: `done` alone where the
    /// menu has ended, else the menu as it now is.
    pub fn handle(
        &mut self,
        manager: &mut Manager,
        channel_id: u64,
        component: &Component,
        now: i64,
    ) -> (message: MessageForm)
        ensures
            (final(self)@, final(manager)@) == (
                menu_after(old(self)@, old(manager)@, channel_id, *component).0,
                menu_after(old(self)@, old(manager)@, channel_id, *component).1,
            ),
            message@ == if menu_after(old(self)@, old(manager)@, channel_id, *component).2 {
                menu_message(final(self)@, now)
            } else {
                plain_message("done"@)
            },
    {
        match component.component_type {
            ComponentType::SelectMenu => {
                proof {
                    use_type_invariant(&*self);
                }
                self.selected = if component.values.len() > 0 {
                    Some(component.values[0].clone())
                } else {
                    None
                };
            },
            ComponentType::Button => {
                if str_eq(component.custom_id.as_str(), "done") {
                    let message = MessageForm {
                        content: "done".to_owned(),
                        options: Vec::new(),
                        buttons: Vec::new(),
                    };
                    proof {
                        assert(message@.options =~= Seq::empty());
                        assert(message@.buttons =~= Seq::empty());
                    }
                    return message;
                }
                match key_from_json(component.custom_id.as_str()) {
                    Some(number) => {
                        self.forget(number);
                        proof {
                            use_type_invariant(&*self);
                        }
                        self.selected = None;
                        manager.remove_reminder(channel_id, ReminderId::from_raw(number));
                    },
                    None => {},
                }
            },
            ComponentType::Other => {},
        }
        self.create(now)
    }

    /// The date at which `reminder` is next due, as the menu shows it.
    fn due(&self, reminder: &Reminder, now: i64) -> (text: String)
        ensures
            text@ == due_text(reminder@.kind, self@.tz, now),
    {
        let next = match &reminder.reminder_type {
            ReminderType::Once(at) => Some(*at),
            ReminderType::Scheduled(schedule) => schedule.next_after(&self.tz, now),
        };
        match next {
            Some(at) => {
                if FIRST_DATE <= at && at <= LAST_DATE {
                    rfc2822(at, self.tz.name())
                } else {
                    String::new()
                }
            },
            None => String::new(),
        }
    }

    /// The message that shows the menu at `now`. The value of each entry of
    /// its list spells the handle of that entry's reminder, and no two entries
    /// have the same handle.
    pub fn create(&self, now: i64) -> (message: MessageForm)
        ensures
            message@ == menu_message(self@, now),
            distinct_handles(self@.reminders),
            spelled(self@.reminders),
    {
        proof {
            use_type_invariant(self);
        }
        if self.reminders.len() > 0 {
            let mut content = "Channel timezone: ".to_owned();
            content.append(self.tz.name());
            let mut options: Vec<SelectOption> = Vec::new();
            let mut i: usize = 0;
            while i < self.reminders.len()
                invariant
                    i <= self.reminders.len(),
                    options@.len() == i,
                    distinct_handles(self@.reminders),
                    spelled(self@.reminders.take(i as int)),
                    forall|j: int|
                        0 <= j < i ==> (#[trigger] options@[j])@ == menu_entry(
                            self@.reminders[j].0,
                            self@.reminders[j].1,
                            self@.tz,
                            self@.selected,
                            now,
                        ),
                decreases self.reminders.len() - i,
            {
                let key = key_to_json(self.reminders[i].0.number());
                let picked = match &self.selected {
                    Some(value) => str_eq(value.as_str(), key.as_str()),
                    None => false,
                };
                options.push(
                    SelectOption {
                        label: self.reminders[i].1.msg.clone(),
                        description: self.due(&self.reminders[i].1, now),
                        value: key,
                        default_selection: picked,
                    },
                );
                i = i + 1;
            }
            proof {
                assert(self@.reminders.take(i as int) =~= self@.reminders);
            }
            let mut buttons: Vec<Button> = Vec::new();
            buttons.push(
                Button {
                    style: ButtonStyle::Secondary,
                    label: "Done".to_owned(),
                    custom_id: "done".to_owned(),
                    disabled: false,
                },
            );
            let delete = match &self.selected {
                Some(value) => Button {
                    style: ButtonStyle::Danger,
                    label: "Delete".to_owned(),
                    custom_id: value.clone(),
                    disabled: false,
                },
                None => Button {
                    style: ButtonStyle::Danger,
                    label: "Delete".to_owned(),
                    custom_id: "delete".to_owned(),
                    disabled: true,
                },
            };
            buttons.push(delete);
            let message = MessageForm { content, options, buttons };
            proof {
                assert(message@.options =~= menu_message(self@, now).options);
                assert(message@.buttons =~= menu_message(self@, now).buttons);
            }
            message
        } else {
            let message = MessageForm {
                content: "no reminders".to_owned(),
                options: Vec::new(),
                buttons: Vec::new(),
            };
            proof {
                assert(message@.options =~= Seq::empty());
                assert(message@.buttons =~= Seq::empty());
            }
            message
        }
    }
}

} // verus!
