use crate::types::response::realtime::RealTimeResponse;
use vstd::prelude::*;

verus! {

/// A message on the shared channel from the API to the worker.
#[derive(Debug, PartialEq)]
pub struct PubSubMessage {
    pub action: PubSubAction,
    pub socket_id: String,
    pub trip_id: Option<String>,
}

/// What a websocket session asks of the worker.
#[derive(Debug, Clone, Copy, PartialEq, Eq)]
pub enum PubSubAction {
    Hello,
    TripAdd,
    Bye,
}

/// A fresh real-time reading of a trip.
#[derive(Debug, PartialEq)]
pub struct MessageContents {
    pub response: RealTimeResponse,
    pub trip_id: String,
    pub publish: bool,
}

/// What a trip task tells the worker's output loop.
#[derive(Debug, PartialEq)]
pub enum WorkerMessage {
    HasMessage(Box<MessageContents>),
    DoNotTrack(String),
}

} // verus!
