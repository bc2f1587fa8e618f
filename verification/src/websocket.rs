//! What the API does with the events of a browser's websocket.
use crate::types::message::{PubSubAction, PubSubMessage};
use vstd::prelude::*;

verus! {

/// An event on a browser's websocket.
#[derive(Debug, PartialEq)]
pub enum SocketEvent {
    /// The browser sent text.
    Text(String),
    /// The browser closed the socket.
    Close,
    /// The stream ended without a close frame (the browser went away).
    Ended,
    /// Anything else (binary data, pings, pongs).
    Other,
}

/// The message that opens a session for the socket.
pub fn hello_message(socket_id: &String) -> (m: PubSubMessage)
    ensures
        m.action == PubSubAction::Hello,
        m.socket_id@ == socket_id@,
        m.trip_id is None,
{
    PubSubMessage { action: PubSubAction::Hello, socket_id: socket_id.clone(), trip_id: None }
}

/// The message to pass on to the worker for an event, if any: a close, or the end of the
/// stream, ends the session; no text request is defined yet, so text is refused (and only
/// logged), like every other event.
pub fn incoming_message(socket_id: &String, event: &SocketEvent) -> (m: Option<PubSubMessage>)
    ensures
        (*event == SocketEvent::Close || *event == SocketEvent::Ended) ==> (m matches Some(msg) && msg.action == PubSubAction::Bye
            && msg.socket_id@ == socket_id@ && msg.trip_id is None),
        (*event != SocketEvent::Close && *event != SocketEvent::Ended) ==> m is None,
{
    match event {
        SocketEvent::Close | SocketEvent::Ended => Some(
            PubSubMessage { action: PubSubAction::Bye, socket_id: socket_id.clone(), trip_id: None },
        ),
        _ => None,
    }
}

} // verus!
