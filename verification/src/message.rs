//! Messages as they are handed to the chat platform: text, a list to pick
//! from, and buttons.

use vstd::prelude::*;

verus! {

/// How a button looks.
#[derive(Clone, Copy, Debug, PartialEq, Eq, Structural)]
pub enum ButtonStyle {
    Secondary,
    Danger,
}

/// A button of a message.
#[derive(Debug)]
pub struct Button {
    pub style: ButtonStyle,
    pub label: String,
    pub custom_id: String,
    pub disabled: bool,
}

/// What a `Button` stands for.
pub struct ButtonView {
    pub style: ButtonStyle,
    pub label: Seq<char>,
    pub custom_id: Seq<char>,
    pub disabled: bool,
}

impl View for Button {
    type V = ButtonView;

    open spec fn view(&self) -> ButtonView {
        ButtonView {
            style: self.style,
            label: self.label@,
            custom_id: self.custom_id@,
            disabled: self.disabled,
        }
    }
}

/// An entry of the list to pick from.
#[derive(Debug)]
pub struct SelectOption {
    pub label: String,
    pub description: String,
    pub value: String,
    pub default_selection: bool,
}

/// What a `SelectOption` stands for.
pub struct SelectOptionView {
    pub label: Seq<char>,
    pub description: Seq<char>,
    pub value: Seq<char>,
    pub default_selection: bool,
}

impl View for SelectOption {
    type V = SelectOptionView;

    open spec fn view(&self) -> SelectOptionView {
        SelectOptionView {
            label: self.label@,
            description: self.description@,
            value: self.value@,
            default_selection: self.default_selection,
        }
    }
}

/// A message: its text, the entries of its list, which has the identifier
/// `reminders`, and its buttons. A message without entries has no list.
#[derive(Debug)]
pub struct MessageForm {
    pub content: String,
    pub options: Vec<SelectOption>,
    pub buttons: Vec<Button>,
}

/// What a `MessageForm` stands for.
pub struct MessageFormView {
    pub content: Seq<char>,
    pub options: Seq<SelectOptionView>,
    pub buttons: Seq<ButtonView>,
}

impl View for MessageForm {
    type V = MessageFormView;

    open spec fn view(&self) -> MessageFormView {
        MessageFormView {
            content: self.content@,
            options: Seq::new(self.options@.len(), |i: int| self.options@[i]@),
            buttons: Seq::new(self.buttons@.len(), |i: int| self.buttons@[i]@),
        }
    }
}

/// A message of text alone.
pub open spec fn plain_message(content: Seq<char>) -> MessageFormView {
    MessageFormView { content, options: Seq::empty(), buttons: Seq::empty() }
}

impl MessageForm {
    /// A message of the text `content` alone.
    pub fn plain(content: &str) -> (message: MessageForm)
        ensures
            message@ == plain_message(content@),
    {
        let message = MessageForm {
            content: content.to_owned(),
            options: Vec::new(),
            buttons: Vec::new(),
        };
        proof {
            assert(message@.options =~= Seq::empty());
            assert(message@.buttons =~= Seq::empty());
        }
        message
    }
}

} // verus!
