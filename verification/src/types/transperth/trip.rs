use vstd::prelude::*;

verus! {

/// Reply of the trip information lookup.
#[derive(Default, Debug, PartialEq)]
pub struct PTATripResponse {
    pub get_trip_infos_result: Vec<PTAGetTripInfosResult>,
}

/// One trip of the trip information lookup; `status` is "Live" or "Not Found".
#[derive(Default, Debug, PartialEq)]
pub struct PTAGetTripInfosResult {
    pub connection_type: String,
    pub interruptions: Option<Vec<PTAInterruption>>,
    pub status: String,
    pub trip_id: i64,
}

/// A service interruption attached to a trip.
#[derive(Default, Debug, PartialEq)]
pub struct PTAInterruption {
    pub description: String,
    pub end_date: String,
    pub insert_date: String,
    pub interruption_id: i64,
    pub modify_date: String,
    pub resolved: bool,
    pub start_date: String,
    pub title: String,
    pub url: String,
}

} // verus!
