//! From key presses to write requests.
use crate::message::{Content, ContentView, Message, MessageView, Named};
use vstd::prelude::*;
use vstd::string::StrSliceExecFns;

verus! {

/// A key as the keyboard reports it.
#[derive(Debug)]
pub enum Key {
    /// A key that produces text.
    Character(String),
    /// A key with a name.
    Named(Named),
    /// A key that the keyboard could not identify.
    Unidentified,
}

/// The modifier keys that are held down.
#[derive(Debug, Copy, Clone, PartialEq, Eq, Structural)]
pub struct Modifiers {
    pub control: bool,
    pub shift: bool,
}

pub enum KeyView {
    Character(Seq<char>),
    Named(Named),
    Unidentified,
}

impl View for Key {
    type V = KeyView;

    open spec fn view(&self) -> KeyView {
        match *self {
            Key::Character(text) => KeyView::Character(text@),
            Key::Named(named) => KeyView::Named(named),
            Key::Unidentified => KeyView::Unidentified,
        }
    }
}

/// A message with its content as mathematics sees it.
pub open spec fn message_view(message: Option<Message>) -> Option<MessageView> {
    match message {
        Some(message) => Some(message@),
        None => None,
    }
}

/// The character that the key with the text `text` writes while shift is
/// held, for the keys whose shifted character the keyboard does not report
/// itself.
pub open spec fn shifted(text: Seq<char>) -> Option<char> {
    if text == seq!['7'] {
        Some('&')
    } else if text == seq!['\\'] {
        Some('|')
    } else if text == seq!['-'] {
        Some('_')
    } else if text == seq![';'] {
        Some(':')
    } else if text == seq!['1'] {
        Some('!')
    } else {
        None
    }
}

/// The write request that a key press stands for.
///
/// Control and `c` ask for an interrupt. A text key with shift held writes
/// its shifted character where [`shifted`] has one, any other text key
/// writes its text, and a named key is passed on by name. A key that could
/// not be identified writes nothing.
pub open spec fn key_message(key: KeyView, mods: Modifiers) -> Option<MessageView> {
    match key {
        KeyView::Character(text) => if mods.control && text == seq!['c'] {
            Some(MessageView::Write(ContentView::Sigint))
        } else if mods.shift && shifted(text) is Some {
            Some(MessageView::Write(ContentView::Text(seq![shifted(text)->0])))
        } else {
            Some(MessageView::Write(ContentView::Text(text)))
        },
        KeyView::Named(named) => Some(MessageView::Write(ContentView::Key(named))),
        KeyView::Unidentified => None,
    }
}

/// Whether `text` is the single character `c`.
fn is_char(text: &str, c: char) -> (r: bool)
    ensures
        r == (text@ == seq![c]),
{
    if text.unicode_len() == 1 {
        let first = text.get_char(0);
        assert(first == c ==> text@ =~= seq![c]);
        first == c
    } else {
        false
    }
}

/// A request to write the text `text`.
fn write_text(text: &str) -> (message: Message)
    ensures
        message@ == MessageView::Write(ContentView::Text(text@)),
{
    Message::Write(Content::from(text))
}

/// Translates a key press into the message it stands for, if any.
pub fn handle_key(key: Key, mods: Modifiers) -> (message: Option<Message>)
    ensures
        message_view(message) == key_message(key@, mods),
{
    match key {
        Key::Character(c) => {
            let text = c.as_str();
            if mods.control && is_char(text, 'c') {
                Some(Message::Write(Content::Sigint))
            } else if mods.shift && is_char(text, '7') {
                proof {
                    reveal_strlit("&");
                    assert("&"@ =~= seq!['&']);
                }
                Some(write_text("&"))
            } else if mods.shift && is_char(text, '\\') {
                proof {
                    reveal_strlit("|");
                    assert("|"@ =~= seq!['|']);
                }
                Some(write_text("|"))
            } else if mods.shift && is_char(text, '-') {
                proof {
                    reveal_strlit("_");
                    assert("_"@ =~= seq!['_']);
                }
                Some(write_text("_"))
            } else if mods.shift && is_char(text, ';') {
                proof {
                    reveal_strlit(":");
                    assert(":"@ =~= seq![':']);
                }
                Some(write_text(":"))
            } else if mods.shift && is_char(text, '1') {
                proof {
                    reveal_strlit("!");
                    assert("!"@ =~= seq!['!']);
                }
                Some(write_text("!"))
            } else {
                Some(Message::Write(Content::Text(c)))
            }
        },
        Key::Named(named) => Some(Message::Write(Content::from(named))),
        Key::Unidentified => None,
    }
}

} // verus!
