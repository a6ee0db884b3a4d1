//! The server's side of one web socket: it passes broadcasts on until either side is done.
use vstd::prelude::*;

verus! {

/// What can happen while a socket is served.
#[derive(Debug)]
pub enum RelayEvent {
    /// The broadcast channel gave a message, or is closed or was too far ahead.
    Broadcast(Option<String>),
    /// A message was handed to the socket; whether the client took it.
    Sent(bool),
    /// The client was heard; whether it is still there.
    Heard(bool),
}

/// What is done about it.
#[derive(Debug)]
pub enum RelayAction {
    /// Hand a message to the socket.
    Send(String),
    /// Wait for the next broadcast or the next frame of the client.
    Wait,
    /// Stop serving the socket.
    Stop,
}

/// Whether an event ends the service of a socket.
pub open spec fn ends(event: RelayEvent) -> bool {
    match event {
        RelayEvent::Broadcast(message) => message is None,
        RelayEvent::Sent(taken) => !taken,
        RelayEvent::Heard(present) => !present,
    }
}

/// The contents of a `RelayAction`.
pub enum RelayMove {
    Send(Seq<char>),
    Wait,
    Stop,
}

impl View for RelayAction {
    type V = RelayMove;

    open spec fn view(&self) -> RelayMove {
        match *self {
            RelayAction::Send(message) => RelayMove::Send(message@),
            RelayAction::Wait => RelayMove::Wait,
            RelayAction::Stop => RelayMove::Stop,
        }
    }
}

/// What is done about an event on a served socket: a broadcast is handed on, the end of either
/// side ends the service, and anything else is waited out.
pub open spec fn response(event: RelayEvent) -> RelayMove {
    if ends(event) {
        RelayMove::Stop
    } else {
        match event {
            RelayEvent::Broadcast(Some(message)) => RelayMove::Send(message@),
            _ => RelayMove::Wait,
        }
    }
}

/// What is done about an event on a served socket.
pub fn relay_step(event: RelayEvent) -> (r: RelayAction)
    ensures
        r@ == response(event),
{
    match event {
        RelayEvent::Broadcast(Some(message)) => RelayAction::Send(message),
        RelayEvent::Broadcast(None) => RelayAction::Stop,
        RelayEvent::Sent(taken) => if taken {
            RelayAction::Wait
        } else {
            RelayAction::Stop
        },
        RelayEvent::Heard(present) => if present {
            RelayAction::Wait
        } else {
            RelayAction::Stop
        },
    }
}

} // verus!
