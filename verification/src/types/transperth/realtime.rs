use vstd::prelude::*;

verus! {

/// The body of a real-time request for one trip on one day.
#[derive(Default, Debug, PartialEq)]
pub struct PTARealTimeRequest {
    pub trip_uid: String,
    pub trip_date: String,
    pub is_mapping_data_returned: bool,
    pub is_real_time_checked: bool,
    pub return_notes: bool,
}

/// Reply of the real-time service for one trip.
#[derive(Default, Debug, PartialEq)]
pub struct PTARealTimeResponse {
    pub request: PTARequest,
    pub status: PTAStatus,
    pub summary: PTASummary,
    pub trip_stops: Vec<PTATripStop>,
    pub parent_transit_stops: Vec<PTAParentTransitStop>,
    pub notes: Vec<PTANote>,
}

/// The real-time request as the service echoes it back; `data_set` is passed through untouched.
#[derive(Default, Debug, PartialEq)]
pub struct PTARequest {
    pub api_key: String,
    pub trip_uid: String,
    pub trip_date: String,
    pub data_set: serde_json::Value,
    pub is_real_time_checked: bool,
    pub return_notes: bool,
}

/// Severity of the real-time reply.
#[derive(Default, Debug, PartialEq)]
pub struct PTAStatus {
    pub severity: i64,
}

/// What the trip is and where its vehicle is now.
#[derive(Default, Debug, PartialEq)]
pub struct PTASummary {
    pub mode: String,
    pub trip_uid: String,
    pub trip_code: String,
    pub trip_source_id: String,
    pub route_name: String,
    pub route_code: String,
    pub route_uid: String,
    pub service_provider: ServiceProvider,
    pub headsign: String,
    pub polyline: String,
    pub real_time_info: PTARealTimeInfo,
    pub trip_start_time: String,
    pub direction: String,
    pub route_source_id: String,
}

/// The operator of the trip.
#[derive(Default, Debug, PartialEq)]
pub struct ServiceProvider {
    pub service_provider_uid: String,
    pub code: String,
    pub name: String,
    pub time_zone: String,
    pub phone_number: String,
    pub url: String,
}

/// The vehicle's position, as "latitude, longitude" text, and when it was reported.
#[derive(Default, Debug, PartialEq)]
pub struct PTARealTimeInfo {
    pub current_position: String,
    pub last_updated: String,
    pub current_bearing: i64,
    pub vehicle_id: String,
}

/// One stop of the trip, with its real-time estimate when the service has one.
#[derive(Default, Debug, PartialEq)]
pub struct PTATripStop {
    pub transit_stop: PTATransitStop,
    pub sequence_number: String,
    pub departure_time: String,
    pub can_board: bool,
    pub can_alight: bool,
    pub real_time_info: Option<PTARealTimeInfo2>,
    pub is_timing_point: Option<bool>,
    pub arrival_time: Option<String>,
}

/// A stop; `position` is "latitude, longitude" or "latitude longitude" text.
#[derive(Default, Debug, PartialEq)]
pub struct PTATransitStop {
    pub code: String,
    pub stop_uid: String,
    pub data_set: String,
    pub description: String,
    pub position: String,
    pub zone: String,
    pub supported_modes: String,
    pub routes: String,
    pub parent_uid: Option<String>,
    pub parent_name: Option<String>,
}

/// Real-time state of the trip at one stop: 1 scheduled, 2 at the station, 3 completed.
#[derive(Default, Debug, PartialEq)]
pub struct PTARealTimeInfo2 {
    pub real_time_trip_status: i64,
    pub estimated_departure_time: Option<String>,
    pub estimated_arrival_time: Option<String>,
}

/// A station that groups stops.
#[derive(Default, Debug, PartialEq)]
pub struct PTAParentTransitStop {
    pub code: String,
    pub stop_uid: String,
    pub data_set: String,
    pub description: String,
    pub position: String,
    pub supported_modes: String,
    pub routes: String,
    pub is_parent: bool,
}

/// A note attached to the real-time reply.
#[derive(Default, Debug, PartialEq)]
pub struct PTANote {
    pub id: i64,
    pub description: String,
    pub code: String,
}

} // verus!
