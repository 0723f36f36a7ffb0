//! What the program around the engine tells it: that the pseudo-terminal is
//! there, that the shell has written something, or that something is to be
//! written to the shell.
use crate::grammar::Token;
use crate::screen::{token_seq, Output};
use vstd::prelude::*;
use vstd::std_specs::convert::FromSpecImpl;
use vstd::string::StrSliceExecFns;
use vstd::utf8::encode_utf8;

verus! {

/// A key that has a name rather than a character. Only the keys that the
/// engine writes something for are told apart.
#[derive(Debug, Copy, Clone, PartialEq, Eq, Structural)]
pub enum Named {
    Enter,
    Space,
    Backspace,
    Escape,
    Other,
}

/// Something to write to the shell.
#[derive(Debug)]
pub enum Content {
    Text(String),
    Bytes(Vec<u8>),
    Key(Named),
    Sigint,
}

/// A message to the engine.
#[derive(Debug)]
pub enum Message {
    /// The pseudo-terminal is open and can be written to.
    Init,
    /// Write this to the shell.
    Write(Content),
    /// The shell has written this.
    Output(Vec<Output>),
}

pub enum ContentView {
    Text(Seq<char>),
    Bytes(Seq<u8>),
    Key(Named),
    Sigint,
}

pub enum MessageView {
    Init,
    Write(ContentView),
    Output(Seq<Token>),
}

impl View for Content {
    type V = ContentView;

    open spec fn view(&self) -> ContentView {
        match *self {
            Content::Text(text) => ContentView::Text(text@),
            Content::Bytes(bytes) => ContentView::Bytes(bytes@),
            Content::Key(named) => ContentView::Key(named),
            Content::Sigint => ContentView::Sigint,
        }
    }
}

impl View for Message {
    type V = MessageView;

    open spec fn view(&self) -> MessageView {
        match *self {
            Message::Init => MessageView::Init,
            Message::Write(content) => MessageView::Write(content@),
            Message::Output(outputs) => MessageView::Output(token_seq(outputs@)),
        }
    }
}

impl Named {
    /// The bytes that stand for this key: a line feed for Enter, a space for
    /// Space, DEL for Backspace, ESC for Escape, and none for any other key.
    pub open spec fn payload(self) -> Option<Seq<u8>> {
        match self {
            Named::Enter => Some(seq![0x0au8]),
            Named::Space => Some(seq![0x20u8]),
            Named::Backspace => Some(seq![0x7fu8]),
            Named::Escape => Some(seq![0x1bu8]),
            Named::Other => None,
        }
    }
}

impl ContentView {
    /// The bytes to write for this content, if any: a text's UTF-8 encoding,
    /// bytes as they are, the byte 3 for an interrupt, and a named key's
    /// bytes.
    pub open spec fn payload(self) -> Option<Seq<u8>> {
        match self {
            ContentView::Text(text) => Some(encode_utf8(text)),
            ContentView::Bytes(bytes) => Some(bytes),
            ContentView::Key(named) => named.payload(),
            ContentView::Sigint => Some(seq![0x03u8]),
        }
    }
}

/// A payload with its bytes as a sequence.
pub open spec fn payload_view(payload: Option<Vec<u8>>) -> Option<Seq<u8>> {
    match payload {
        Some(bytes) => Some(bytes@),
        None => None,
    }
}

impl Content {
    /// The bytes to write to the shell for this content, or `None` where
    /// nothing is written.
    pub fn payload(self) -> (payload: Option<Vec<u8>>)
        ensures
            payload_view(payload) == self@.payload(),
    {
        match self {
            Content::Text(text) => Some(text.as_str().as_bytes_vec()),
            Content::Bytes(bytes) => Some(bytes),
            Content::Sigint => {
                let bytes = vec![0x03u8];
                assert(bytes@ =~= seq![0x03u8]);
                Some(bytes)
            },
            Content::Key(named) => {
                let byte: u8 = match named {
                    Named::Enter => 0x0a,
                    Named::Space => 0x20,
                    Named::Backspace => 0x7f,
                    Named::Escape => 0x1b,
                    Named::Other => {
                        return None;
                    },
                };
                let bytes = vec![byte];
                assert(bytes@ =~= seq![byte]);
                Some(bytes)
            },
        }
    }
}

impl Message {
    /// A request to write what `c` converts to.
    pub fn write<C: Into<Content>>(c: C) -> (message: Self)
        ensures
            message matches Message::Write(content) && call_ensures(
                <C as Into<Content>>::into,
                (c,),
                content,
            ),
    {
        Self::Write(c.into())
    }

    /// A request to write the bytes that `v` converts to.
    pub fn bytes<V: Into<Vec<u8>>>(v: V) -> (message: Self)
        ensures
            message matches Message::Write(Content::Bytes(bytes)) && call_ensures(
                <V as Into<Vec<u8>>>::into,
                (v,),
                bytes,
            ),
    {
        Self::Write(Content::Bytes(v.into()))
    }

    /// A request to write what the key `named` stands for.
    pub fn named(named: Named) -> (message: Self)
        ensures
            message@ == MessageView::Write(ContentView::Key(named)),
    {
        Self::Write(Content::from(named))
    }
}

impl From<&str> for Content {
    fn from(s: &str) -> (content: Self)
        ensures
            content@ == ContentView::Text(s@),
    {
        Self::Text(s.to_owned())
    }
}

impl FromSpecImpl<&str> for Content {
    open spec fn obeys_from_spec() -> bool {
        false
    }

    open spec fn from_spec(s: &str) -> Self {
        arbitrary()
    }
}

impl From<Named> for Content {
    fn from(named: Named) -> (content: Self)
        ensures
            content@ == ContentView::Key(named),
    {
        Self::Key(named)
    }
}

impl FromSpecImpl<Named> for Content {
    open spec fn obeys_from_spec() -> bool {
        true
    }

    open spec fn from_spec(named: Named) -> Self {
        Content::Key(named)
    }
}

} // verus!
