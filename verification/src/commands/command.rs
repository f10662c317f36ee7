//! What the commands have in common: the form in which a command is offered,
//! and the options with which it is called.

use crate::db::DbView;
use crate::manager::{Manager, Timer};
use crate::message::MessageForm;
use crate::text::str_eq;
use vstd::prelude::*;

verus! {

/// The kind of value that an option of a command takes.
#[derive(Clone, Copy, Debug, PartialEq, Eq, Structural)]
pub enum OptionKind {
    /// Text.
    String,
    /// A whole number.
    Integer,
}

/// One option in the form of a command.
#[derive(Debug)]
pub struct FormOption {
    pub name: String,
    pub description: String,
    pub kind: OptionKind,
    pub required: bool,
}

/// What a `FormOption` stands for.
pub struct FormOptionView {
    pub name: Seq<char>,
    pub description: Seq<char>,
    pub kind: OptionKind,
    pub required: bool,
}

impl View for FormOption {
    type V = FormOptionView;

    open spec fn view(&self) -> FormOptionView {
        FormOptionView {
            name: self.name@,
            description: self.description@,
            kind: self.kind,
            required: self.required,
        }
    }
}

/// The form in which a command is offered: its name, what it is for, and the
/// options it takes.
#[derive(Debug)]
pub struct CommandForm {
    pub name: String,
    pub description: String,
    pub options: Vec<FormOption>,
}

/// What a `CommandForm` stands for.
pub struct CommandFormView {
    pub name: Seq<char>,
    pub description: Seq<char>,
    pub options: Seq<FormOptionView>,
}

impl View for CommandForm {
    type V = CommandFormView;

    open spec fn view(&self) -> CommandFormView {
        CommandFormView {
            name: self.name@,
            description: self.description@,
            options: Seq::new(self.options@.len(), |i: int| self.options@[i]@),
        }
    }
}

/// An option that takes text.
pub open spec fn text_option(
    name: Seq<char>,
    description: Seq<char>,
    required: bool,
) -> FormOptionView {
    FormOptionView { name, description, kind: OptionKind::String, required }
}

/// An option that takes a whole number and may be left out.
pub open spec fn number_option(name: Seq<char>, description: Seq<char>) -> FormOptionView {
    FormOptionView { name, description, kind: OptionKind::Integer, required: false }
}

impl CommandForm {
    /// A form without a name, a description or options.
    pub fn new() -> (form: CommandForm)
        ensures
            form@ == (CommandFormView {
                name: Seq::empty(),
                description: Seq::empty(),
                options: Seq::empty(),
            }),
    {
        let form = CommandForm {
            name: String::new(),
            description: String::new(),
            options: Vec::new(),
        };
        assert(form@.options =~= Seq::empty());
        form
    }

    /// Gives the form the name `name`.
    pub fn name(&mut self, name: &str)
        ensures
            final(self)@ == (CommandFormView { name: name@, ..old(self)@ }),
    {
        self.name = name.to_owned();
    }

    /// Gives the form the description `description`.
    pub fn description(&mut self, description: &str)
        ensures
            final(self)@ == (CommandFormView { description: description@, ..old(self)@ }),
    {
        self.description = description.to_owned();
    }

    /// Adds an option at the end of the form.
    pub fn create_option(&mut self, name: &str, description: &str, kind: OptionKind, required: bool)
        ensures
            final(self)@ == (CommandFormView {
                options: old(self)@.options.push(
                    FormOptionView { name: name@, description: description@, kind, required },
                ),
                ..old(self)@
            }),
    {
        self.options.push(
            FormOption {
                name: name.to_owned(),
                description: description.to_owned(),
                kind,
                required,
            },
        );
        assert(self@.options =~= old(self)@.options.push(
            FormOptionView { name: name@, description: description@, kind, required },
        ));
    }
}

/// The value that a caller gave to an option.
#[derive(Debug)]
pub enum OptionValue {
    /// Text.
    String(String),
    /// A whole number.
    Integer(i64),
    /// A value of a kind that no command here takes.
    Other,
}

/// What an `OptionValue` stands for.
pub enum ValueView {
    String(Seq<char>),
    Integer(i64),
    Other,
}

impl View for OptionValue {
    type V = ValueView;

    open spec fn view(&self) -> ValueView {
        match self {
            OptionValue::String(text) => ValueView::String(text@),
            OptionValue::Integer(number) => ValueView::Integer(*number),
            OptionValue::Other => ValueView::Other,
        }
    }
}

/// The options with which a command was called, as names and values.
pub type OptionsView = Seq<(Seq<char>, ValueView)>;

/// The value under `name` in `options`: that of the last entry with that
/// name.
pub open spec fn chosen(options: OptionsView, name: Seq<char>) -> Option<ValueView>
    decreases options.len(),
{
    if options.len() == 0 {
        None
    } else if options.last().0 == name {
        Some(options.last().1)
    } else {
        chosen(options.drop_last(), name)
    }
}

/// The text under `name` in `options`, if the value there is text.
pub open spec fn chosen_text(options: OptionsView, name: Seq<char>) -> Option<Seq<char>> {
    match chosen(options, name) {
        Some(ValueView::String(text)) => Some(text),
        _ => None,
    }
}

/// The number under `name` in `options`, if the value there is a number.
pub open spec fn chosen_integer(options: OptionsView, name: Seq<char>) -> Option<i64> {
    match chosen(options, name) {
        Some(ValueView::Integer(number)) => Some(number),
        _ => None,
    }
}

/// Whether every value in `options` is text.
pub open spec fn all_text(options: OptionsView) -> bool {
    forall|i: int| 0 <= i < options.len() ==> (#[trigger] options[i]).1 is String
}

/// The options with which a command was called.
#[derive(Debug)]
pub struct Options {
    pub entries: Vec<(String, OptionValue)>,
}

impl View for Options {
    type V = OptionsView;

    open spec fn view(&self) -> OptionsView {
        Seq::new(self.entries@.len(), |i: int| (self.entries@[i].0@, self.entries@[i].1@))
    }
}

impl Options {
    /// No options.
    pub fn new() -> (options: Options)
        ensures
            options@ == Seq::<(Seq<char>, ValueView)>::empty(),
    {
        let options = Options { entries: Vec::new() };
        options
    }

    /// Adds the value `value` under `name`; it takes the place of an earlier
    /// value under the same name.
    pub fn insert(&mut self, name: &str, value: OptionValue)
        ensures
            final(self)@ == old(self)@.push((name@, value@)),
    {
        self.entries.push((name.to_owned(), value));
    }

    /// The value under `name`.
    pub fn get(&self, name: &str) -> (value: Option<&OptionValue>)
        ensures
            match value {
                Some(value) => chosen(self@, name@) == Some(value@),
                None => chosen(self@, name@) is None,
            },
    {
        let mut i: usize = self.entries.len();
        assert(self@.take(i as int) =~= self@);
        while i > 0
            invariant
                i <= self.entries.len(),
                chosen(self@, name@) == chosen(self@.take(i as int), name@),
            decreases i,
        {
            i = i - 1;
            proof {
                let upto = self@.take(i + 1);
                assert(upto.drop_last() =~= self@.take(i as int));
            }
            if str_eq(self.entries[i].0.as_str(), name) {
                return Some(&self.entries[i].1);
            }
        }
        None
    }

    /// The text under `name`, if the value there is text.
    pub fn text(&self, name: &str) -> (text: Option<&str>)
        ensures
            match text {
                Some(text) => chosen_text(self@, name@) == Some(text@),
                None => chosen_text(self@, name@) is None,
            },
    {
        match self.get(name) {
            Some(OptionValue::String(text)) => Some(text.as_str()),
            _ => None,
        }
    }

    /// The number under `name`, if the value there is a number.
    pub fn integer(&self, name: &str) -> (number: Option<i64>)
        ensures
            number == chosen_integer(self@, name@),
    {
        match self.get(name) {
            Some(OptionValue::Integer(number)) => Some(*number),
            _ => None,
        }
    }

    /// Whether every value is text.
    pub fn only_text(&self) -> (only: bool)
        ensures
            only == all_text(self@),
    {
        let mut i: usize = 0;
        while i < self.entries.len()
            invariant
                i <= self.entries.len(),
                forall|j: int| 0 <= j < i ==> (#[trigger] self@[j]).1 is String,
            decreases self.entries.len() - i,
        {
            match &self.entries[i].1 {
                OptionValue::String(_) => {},
                _ => {
                    assert(!(self@[i as int].1 is String));
                    return false;
                },
            }
            i = i + 1;
        }
        true
    }
}

/// A command as it was called: its name, the channel, and the options.
#[derive(Debug)]
pub struct Invocation {
    pub name: String,
    pub channel_id: u64,
    pub options: Options,
}

/// How an interaction is answered.
#[derive(Debug)]
pub enum Answer {
    /// Not at all.
    Nothing,
    /// With a message of this text.
    Content(String),
    /// With this message.
    Message(MessageForm),
    /// By putting this message in the place of the one that was used.
    Update(MessageForm),
    /// By confirming the use and leaving the message as it is.
    Unchanged,
}

/// What came of an interaction: the answer, the timer of the reminder that
/// was stored, if one was, and whether the store was worked on, so that its
/// file is to be written.
#[derive(Debug)]
pub struct Outcome {
    pub answer: Answer,
    pub timer: Option<Timer>,
    pub persist: bool,
}

/// Whether nothing came of an interaction: the store is as it was and is not
/// to be written, and there is neither an answer nor a timer.
pub open spec fn ignored(before: DbView, after: DbView, outcome: Outcome) -> bool {
    after == before && outcome.answer is Nothing && outcome.timer is None && !outcome.persist
}

impl Outcome {
    /// The outcome of an interaction of which nothing comes.
    pub fn nothing() -> (outcome: Outcome)
        ensures
            outcome.answer is Nothing,
            outcome.timer is None,
            !outcome.persist,
    {
        Outcome { answer: Answer::Nothing, timer: None, persist: false }
    }
}

/// A command: what it is called, the form in which it is offered, and what it
/// does when it is called.
pub trait Command {
    /// The command's name.
    spec fn named(&self) -> Seq<char>;

    /// The form `before` with the command's part filled in.
    spec fn offers(&self, before: CommandFormView) -> CommandFormView;

    /// Whether calling the command with `call` at `now` made `after` of
    /// `before` with the outcome `outcome`.
    spec fn handles(
        &self,
        before: DbView,
        call: Invocation,
        now: i64,
        after: DbView,
        outcome: Outcome,
    ) -> bool;

    /// The command's name.
    fn name(&self) -> (name: &str)
        ensures
            name@ == self.named(),
    ;

    /// Whether the command is the one called `name`.
    fn can_handle(&self, name: &str) -> (can: bool)
        ensures
            can == (name@ == self.named()),
    ;

    /// Fills in the command's part of the form.
    fn create(&self, command: &mut CommandForm)
        ensures
            final(command)@ == self.offers(old(command)@),
    ;

    /// Does at `now` what the command does when called with `command`, and
    /// returns the answer to give and the timer to run.
    fn handle(&self, manager: &mut Manager, command: &Invocation, now: i64) -> (outcome: Outcome)
        ensures
            self.handles(old(manager)@, *command, now, final(manager)@, outcome),
    ;
}

} // verus!
