//! The messages of the dashboard and the payloads that travel over the wire.
use vstd::prelude::*;

verus! {

/// One line of the conversation.
#[derive(Debug)]
pub struct ChatMessage {
    /// What the message is about: the note that an answer goes to.
    pub id: String,
    pub text: String,
    /// Whether it was typed here rather than received.
    pub is_mine: bool,
    pub timestamp: String,
}

impl Clone for ChatMessage {
    fn clone(&self) -> (r: Self)
        ensures
            r == *self,
    {
        ChatMessage {
            id: self.id.clone(),
            text: self.text.clone(),
            is_mine: self.is_mine,
            timestamp: self.timestamp.clone(),
        }
    }
}

/// The contents of a `ChatMessage`.
pub struct ChatLine {
    pub id: Seq<char>,
    pub text: Seq<char>,
    pub is_mine: bool,
    pub timestamp: Seq<char>,
}

impl View for ChatMessage {
    type V = ChatLine;

    open spec fn view(&self) -> ChatLine {
        ChatLine {
            id: self.id@,
            text: self.text@,
            is_mine: self.is_mine,
            timestamp: self.timestamp@,
        }
    }
}

/// The contents of a list of messages.
pub open spec fn lines(messages: Seq<ChatMessage>) -> Seq<ChatLine> {
    Seq::new(messages.len(), |i: int| messages[i]@)
}

/// What the server broadcasts when an archive changes.
#[derive(Debug)]
pub struct MessagePayload {
    pub id: String,
    pub content: String,
}

impl Clone for MessagePayload {
    fn clone(&self) -> (r: Self)
        ensures
            r == *self,
    {
        MessagePayload { id: self.id.clone(), content: self.content.clone() }
    }
}

/// The contents of a `MessagePayload`.
pub struct Payload {
    pub id: Seq<char>,
    pub content: Seq<char>,
}

impl View for MessagePayload {
    type V = Payload;

    open spec fn view(&self) -> Payload {
        Payload { id: self.id@, content: self.content@ }
    }
}

/// A note as its service keeps it: the text and the version it was read at.
#[derive(Debug)]
pub struct NotePayload {
    pub text: String,
    pub version: u32,
}

/// The contents of a `NotePayload`.
pub struct Note {
    pub text: Seq<char>,
    pub version: u32,
}

impl View for NotePayload {
    type V = Note;

    open spec fn view(&self) -> Note {
        Note { text: self.text@, version: self.version }
    }
}

/// Everything that can happen to the dashboard.
#[derive(Debug)]
pub enum Msg {
    InputChanged(String),
    FilterChanged(String),
    SendMessage,
    NukeMessages,
    CopyToClipboard(String),
    /// A text frame as it came in, and the payload that it decodes to, if it decodes to one.
    Received(String, Option<MessagePayload>),
    PostResult(Result<(), String>),
    SelectMessage(String),
    ClearSelection,
    /// The conversation was scrolled; whether its end is now in sight.
    Scrolled(bool),
}

impl Clone for Msg {
    fn clone(&self) -> (r: Self)
        ensures
            r == *self,
    {
        match self {
            Msg::InputChanged(val) => Msg::InputChanged(val.clone()),
            Msg::FilterChanged(val) => Msg::FilterChanged(val.clone()),
            Msg::SendMessage => Msg::SendMessage,
            Msg::NukeMessages => Msg::NukeMessages,
            Msg::CopyToClipboard(text) => Msg::CopyToClipboard(text.clone()),
            Msg::Received(text, Some(payload)) => Msg::Received(
                text.clone(),
                Some(payload.clone()),
            ),
            Msg::Received(text, None) => Msg::Received(text.clone(), None),
            Msg::PostResult(Ok(done)) => Msg::PostResult(Ok(*done)),
            Msg::PostResult(Err(e)) => Msg::PostResult(Err(e.clone())),
            Msg::SelectMessage(id) => Msg::SelectMessage(id.clone()),
            Msg::ClearSelection => Msg::ClearSelection,
            Msg::Scrolled(at_bottom) => Msg::Scrolled(*at_bottom),
        }
    }
}

/// The contents of a `Msg`.
pub enum Signal {
    InputChanged(Seq<char>),
    FilterChanged(Seq<char>),
    SendMessage,
    NukeMessages,
    CopyToClipboard(Seq<char>),
    Received(Seq<char>, Option<Payload>),
    PostResult(Result<(), Seq<char>>),
    SelectMessage(Seq<char>),
    ClearSelection,
    Scrolled(bool),
}

impl View for Msg {
    type V = Signal;

    open spec fn view(&self) -> Signal {
        match *self {
            Msg::InputChanged(val) => Signal::InputChanged(val@),
            Msg::FilterChanged(val) => Signal::FilterChanged(val@),
            Msg::SendMessage => Signal::SendMessage,
            Msg::NukeMessages => Signal::NukeMessages,
            Msg::CopyToClipboard(text) => Signal::CopyToClipboard(text@),
            Msg::Received(text, Some(payload)) => Signal::Received(text@, Some(payload@)),
            Msg::Received(text, None) => Signal::Received(text@, None),
            Msg::PostResult(Ok(done)) => Signal::PostResult(Ok(done)),
            Msg::PostResult(Err(e)) => Signal::PostResult(Err(e@)),
            Msg::SelectMessage(id) => Signal::SelectMessage(id@),
            Msg::ClearSelection => Signal::ClearSelection,
            Msg::Scrolled(at_bottom) => Signal::Scrolled(at_bottom),
        }
    }
}

/// What the dashboard asks of the outside world.
#[derive(Debug)]
pub enum Effect {
    /// Update the note of `id` at `router`, then wait `pause_ms` milliseconds and report the
    /// outcome as `Msg::PostResult`.
    UpdateNote { nuke: bool, router: String, id: String, text: String, pause_ms: u64 },
    /// Scroll the conversation to its end.
    SnapToEnd,
    /// Put a text on the clipboard.
    WriteClipboard(String),
    /// Write a line to the console.
    Print(String),
}

/// The contents of an `Effect`.
pub enum Demand {
    UpdateNote {
        nuke: bool,
        router: Seq<char>,
        id: Seq<char>,
        text: Seq<char>,
        pause_ms: u64,
    },
    SnapToEnd,
    WriteClipboard(Seq<char>),
    Print(Seq<char>),
}

impl View for Effect {
    type V = Demand;

    open spec fn view(&self) -> Demand {
        match *self {
            Effect::UpdateNote { nuke, router, id, text, pause_ms } => Demand::UpdateNote {
                nuke,
                router: router@,
                id: id@,
                text: text@,
                pause_ms,
            },
            Effect::SnapToEnd => Demand::SnapToEnd,
            Effect::WriteClipboard(t) => Demand::WriteClipboard(t@),
            Effect::Print(t) => Demand::Print(t@),
        }
    }
}

/// The contents of a list of effects.
pub open spec fn demands(effects: Seq<Effect>) -> Seq<Demand> {
    Seq::new(effects.len(), |i: int| effects[i]@)
}

} // verus!
