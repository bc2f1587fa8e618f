use vstd::prelude::*;

verus! {

/// Where a trip's vehicle is and how it is doing at each of its stops.
#[derive(Debug, PartialEq)]
pub struct RealTimeResponse {
    pub trip_id: String,
    pub route_name: String,
    pub current_position: GeoPosition,
    pub last_updated: String,
    pub start_time: String,
    pub transit_stops: Vec<TransitStop>,
}

/// A position as its two coordinate texts, latitude then longitude, as the service wrote them.
#[derive(Debug, PartialEq)]
pub struct GeoPosition {
    pub latitude: String,
    pub longitude: String,
}

/// A stop of the trip, with its real-time estimate when there is one.
#[derive(Debug, PartialEq)]
pub struct TransitStop {
    pub position: GeoPosition,
    pub description: String,
    pub real_time_info: Option<RealTimeInfo>,
}

/// The trip's state at a stop and its estimated times there.
#[derive(Debug, PartialEq)]
pub struct RealTimeInfo {
    pub trip_status: TransitStopStatus,
    pub estimated_arrival_time: Option<String>,
    pub estimated_departure_time: Option<String>,
}

/// The trip's state at a stop.
#[derive(Debug, Clone, Copy, PartialEq, Eq)]
pub enum TransitStopStatus {
    Scheduled,
    AtStation,
    Completed,
}

} // verus!
