use vstd::prelude::*;

verus! {

/// Reply of the timetable query for one route and day.
#[derive(Default, Debug, PartialEq)]
pub struct PTATimetableResponse {
    pub request: PTARequest,
    pub status: PTAStatus,
    pub start_date: String,
    pub end_date: String,
    pub timetable_trips: Vec<PTATimetableTrip>,
    pub stop_patterns: Vec<PTAStopPattern>,
    pub routes: Vec<PTARoute>,
    pub transit_stops: Vec<PTATransitStop>,
    pub running_date_patterns: Vec<PTARunningDatePattern>,
    pub notes: Vec<PTANote>,
}

/// The timetable query as the service echoes it back.
#[derive(Default, Debug, PartialEq)]
pub struct PTARequest {
    pub api_key: String,
    pub route: String,
    pub start_date: String,
    pub end_date: String,
    pub data_set: String,
    pub return_notes: bool,
}

/// Severity of the timetable reply.
#[derive(Default, Debug, PartialEq)]
pub struct PTAStatus {
    pub severity: i64,
}

/// One scheduled trip of the timetable.
#[derive(Default, Debug, PartialEq)]
pub struct PTATimetableTrip {
    pub trip_uid: String,
    pub headsign: String,
    pub route_uid: String,
    pub running_date_pattern_id: i64,
    pub stop_pattern_id: i64,
    pub trip_stop_timings: Vec<TripStopTiming>,
    pub direction: String,
    pub trip_source_id: String,
    pub note_ids: Vec<i64>,
}

/// When a timetabled trip is at one of its stops.
#[derive(Default, Debug, PartialEq)]
pub struct TripStopTiming {
    pub arrival_time: String,
    pub depart_time: String,
    pub can_board: bool,
    pub can_alight: bool,
    pub is_timing_point: Option<bool>,
}

/// The stops a group of trips calls at.
#[derive(Default, Debug, PartialEq)]
pub struct PTAStopPattern {
    pub stop_pattern_id: i64,
    pub transit_stop_uids: Vec<String>,
}

/// A route of the timetable.
#[derive(Default, Debug, PartialEq)]
pub struct PTARoute {
    pub route_uid: String,
    pub code: String,
    pub name: String,
    pub service_provider_uid: String,
    pub transport_mode: String,
    pub transport_mode_uid: String,
    pub route_timetable_group_id: String,
    pub route_source_id: String,
}

/// A stop of the timetable.
#[derive(Default, Debug, PartialEq)]
pub struct PTATransitStop {
    pub data_set: String,
    pub code: String,
    pub stop_uid: String,
    pub description: String,
    pub position: String,
    pub zone: String,
    pub supported_modes: String,
    pub supported_mode_uids: String,
    pub routes: String,
    pub parent_uid: Option<String>,
    pub parent_name: Option<String>,
}

/// The days on which a group of trips runs.
#[derive(Default, Debug, PartialEq)]
pub struct PTARunningDatePattern {
    pub running_date_pattern_id: i64,
    pub pattern: String,
}

/// A note attached to the timetable.
#[derive(Default, Debug, PartialEq)]
pub struct PTANote {
    pub id: i64,
    pub description: String,
    pub code: String,
}

} // verus!
