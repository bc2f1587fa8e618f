//! Requests from websocket sessions, as the worker receives them on the shared channel.
use crate::channels::{cache_key, cache_key_name, socket_channel, socket_channel_name};
use crate::task_manager::TaskManager;
use crate::types::message::{PubSubAction, PubSubMessage};
use vstd::prelude::*;

verus! {

/// Why a request was refused.
#[derive(Debug, PartialEq)]
pub enum MessageError {
    /// A request to follow a trip named no trip.
    MissingTripId,
}

/// A request from a websocket session, checked.
#[derive(Debug, PartialEq)]
pub enum SessionRequest {
    /// The session opened.
    Hello { socket_id: String },
    /// The session wants to follow a trip.
    TripAdd { socket_id: String, trip_id: String },
    /// The session closed.
    Bye { socket_id: String },
}

/// Reads a message of the shared channel; following a trip needs a trip id.
pub fn plan_message(message: PubSubMessage) -> (r: Result<SessionRequest, MessageError>)
    ensures
        message.action == PubSubAction::Hello ==> (r matches Ok(
            SessionRequest::Hello { socket_id },
        ) && socket_id@ == message.socket_id@),
        message.action == PubSubAction::Bye ==> (r matches Ok(SessionRequest::Bye { socket_id })
            && socket_id@ == message.socket_id@),
        message.action == PubSubAction::TripAdd && message.trip_id is None ==> r == Err::<
            SessionRequest,
            MessageError,
        >(MessageError::MissingTripId),
        message.action == PubSubAction::TripAdd && message.trip_id is Some ==> (r matches Ok(
            SessionRequest::TripAdd { socket_id, trip_id },
        ) && socket_id@ == message.socket_id@ && trip_id@ == message.trip_id->0@),
{
    match message.action {
        PubSubAction::Hello => Ok(SessionRequest::Hello { socket_id: message.socket_id }),
        PubSubAction::Bye => Ok(SessionRequest::Bye { socket_id: message.socket_id }),
        PubSubAction::TripAdd => match message.trip_id {
            Some(trip_id) => Ok(SessionRequest::TripAdd { socket_id: message.socket_id, trip_id }),
            None => Err(MessageError::MissingTripId),
        },
    }
}

/// What became of a session's request to follow a trip.
#[derive(Debug, PartialEq)]
pub enum TripRequestOutcome {
    /// The trip is marked as not worth tracking; nothing was done.
    Skipped,
    /// The trip has no task yet: the caller is to start one and record it with
    /// `TaskManager::record_task`; its first reading will reach the session.
    Started,
    /// The trip's task runs already: its cached reading, under `cache_key`, is to be sent on
    /// `channel` straight away.
    ServeCached { cache_key: String, channel: String },
}

/// A session asks to follow a trip. A trip marked as not worth tracking is skipped; otherwise
/// the session follows it, its task is to be started if none runs, and if one runs the cached
/// reading is to be sent to the session.
pub fn request_trip(
    tm: &mut TaskManager,
    socket_id: &String,
    trip_id: &String,
    do_not_track: bool,
) -> (r: TripRequestOutcome)
    requires
        old(tm).wf(),
    ensures
        final(tm).wf(),
        do_not_track ==> r == TripRequestOutcome::Skipped && final(tm).view() == old(tm).view(),
        !do_not_track && old(tm).view().tasks.contains_key(trip_id@) ==> final(tm).view() == old(
            tm,
        ).view().subscribe(socket_id@, trip_id@) && (r matches TripRequestOutcome::ServeCached {
            cache_key,
            channel,
        } && cache_key@ == cache_key_name(trip_id@) && channel@ == socket_channel_name(socket_id@)),
        !do_not_track && !old(tm).view().tasks.contains_key(trip_id@) ==> r
            == TripRequestOutcome::Started && final(tm).view() == old(tm).view().subscribe(
            socket_id@,
            trip_id@,
        ),
        old(tm).view().consistent() ==> final(tm).view().consistent(),
{
    if do_not_track {
        return TripRequestOutcome::Skipped;
    }
    let created = tm.add_task_to_websocket_session(socket_id.clone(), trip_id.clone());
    if created {
        TripRequestOutcome::Started
    } else {
        TripRequestOutcome::ServeCached {
            cache_key: cache_key(trip_id.as_str()),
            channel: socket_channel(socket_id.as_str()),
        }
    }
}

} // verus!
