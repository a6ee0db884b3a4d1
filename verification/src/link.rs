//! The link of a client to the server: what each event on it leads to.
use vstd::prelude::*;

use crate::text;

verus! {

/// How long a client waits before it connects again, in milliseconds.
pub const RECONNECT_PAUSE_MS: u64 = 2000;

/// What can happen while a client connects or is connected.
#[derive(Debug)]
pub enum LinkEvent {
    Connected,
    /// The connection could not be made, with the reason.
    ConnectFailed(String),
    /// A text frame came in.
    Text(String),
    /// A frame came in that is neither text nor the end: binary, ping or pong.
    OtherFrame,
    /// The server said that it closes the connection.
    Closed,
    /// Reading failed, with the reason.
    ReadFailed(String),
    /// There is nothing more to read.
    Ended,
}

/// What a client does next.
#[derive(Debug)]
pub enum LinkNext {
    /// Read the next frame.
    Read,
    /// Wait so many milliseconds and connect again.
    ReconnectAfter(u64),
}

/// What an event leads to.
#[derive(Debug)]
pub struct LinkStep {
    /// A line for the console.
    pub say: Option<String>,
    /// A text for the dashboard.
    pub deliver: Option<String>,
    pub next: LinkNext,
}

/// The contents of a `LinkEvent`.
pub enum LinkSignal {
    Connected,
    ConnectFailed(Seq<char>),
    Text(Seq<char>),
    OtherFrame,
    Closed,
    ReadFailed(Seq<char>),
    Ended,
}

impl View for LinkEvent {
    type V = LinkSignal;

    open spec fn view(&self) -> LinkSignal {
        match *self {
            LinkEvent::Connected => LinkSignal::Connected,
            LinkEvent::ConnectFailed(e) => LinkSignal::ConnectFailed(e@),
            LinkEvent::Text(t) => LinkSignal::Text(t@),
            LinkEvent::OtherFrame => LinkSignal::OtherFrame,
            LinkEvent::Closed => LinkSignal::Closed,
            LinkEvent::ReadFailed(e) => LinkSignal::ReadFailed(e@),
            LinkEvent::Ended => LinkSignal::Ended,
        }
    }
}

/// The line that an event puts on the console.
pub open spec fn said(event: LinkSignal) -> Option<Seq<char>> {
    match event {
        LinkSignal::Connected => Some("Successfully connected to server."@),
        LinkSignal::ConnectFailed(e) => Some(
            "Failed to connect to WS: "@ + e + ". Retrying..."@,
        ),
        LinkSignal::Closed => Some("Server closed the connection."@),
        LinkSignal::ReadFailed(e) => Some("WebSocket read error: "@ + e),
        _ => None,
    }
}

/// The text that an event hands to the dashboard.
pub open spec fn delivered(event: LinkSignal) -> Option<Seq<char>> {
    match event {
        LinkSignal::Text(t) => Some(t),
        _ => None,
    }
}

/// Whether the client reads on after an event. Else it waits and connects again.
pub open spec fn reads_on(event: LinkSignal) -> bool {
    match event {
        LinkSignal::Connected | LinkSignal::Text(_) | LinkSignal::OtherFrame => true,
        _ => false,
    }
}

/// What the client does next after an event.
pub open spec fn next_move(event: LinkSignal) -> LinkNext {
    if reads_on(event) {
        LinkNext::Read
    } else {
        LinkNext::ReconnectAfter(RECONNECT_PAUSE_MS)
    }
}

/// The address of the web socket of the server at `host`.
pub open spec fn socket_address(host: Seq<char>) -> Seq<char> {
    "ws://"@ + host + ":5656/ws"@
}

/// The address of the web socket of the server at `host`.
pub fn ws_url(host: &str) -> (r: String)
    ensures
        r@ == socket_address(host@),
{
    let mut r = text::join("ws://", host);
    r.append(":5656/ws");
    r
}

/// What is said before a client connects.
pub fn connect_notice(url: &str) -> (r: String)
    ensures
        r@ == "Attempting to connect to WS: "@ + url@,
{
    text::join("Attempting to connect to WS: ", url)
}

/// What an event on the link leads to.
pub fn link_step(event: LinkEvent) -> (r: LinkStep)
    ensures
        text::opt_text(r.say) == said(event@),
        text::opt_text(r.deliver) == delivered(event@),
        r.next == next_move(event@),
{
    match event {
        LinkEvent::Connected => LinkStep {
            say: Some("Successfully connected to server.".to_owned()),
            deliver: None,
            next: LinkNext::Read,
        },
        LinkEvent::ConnectFailed(e) => {
            let mut say = text::join("Failed to connect to WS: ", e.as_str());
            say.append(". Retrying...");
            LinkStep {
                say: Some(say),
                deliver: None,
                next: LinkNext::ReconnectAfter(RECONNECT_PAUSE_MS),
            }
        },
        LinkEvent::Text(t) => LinkStep { say: None, deliver: Some(t), next: LinkNext::Read },
        LinkEvent::OtherFrame => LinkStep { say: None, deliver: None, next: LinkNext::Read },
        LinkEvent::Closed => LinkStep {
            say: Some("Server closed the connection.".to_owned()),
            deliver: None,
            next: LinkNext::ReconnectAfter(RECONNECT_PAUSE_MS),
        },
        LinkEvent::ReadFailed(e) => LinkStep {
            say: Some(text::join("WebSocket read error: ", e.as_str())),
            deliver: None,
            next: LinkNext::ReconnectAfter(RECONNECT_PAUSE_MS),
        },
        LinkEvent::Ended => LinkStep {
            say: None,
            deliver: None,
            next: LinkNext::ReconnectAfter(RECONNECT_PAUSE_MS),
        },
    }
}

} // verus!
