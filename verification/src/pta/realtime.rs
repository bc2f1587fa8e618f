use crate::types::converters::{split_coordinates, split_position};
use vstd::prelude::*;

verus! {

/// Where a trip's vehicle is and how it is doing at each of its stops.
#[derive(Debug, PartialEq)]
pub struct RealTimeResponse {
    pub trip_id: String,
    pub current_position: GeoPosition,
    pub last_updated: String,
    pub start_time: String,
    pub transit_stops: Vec<TransitStop>,
}

/// A position as its latitude and longitude texts.
#[derive(Debug, PartialEq)]
pub struct GeoPosition {
    pub latitude: String,
    pub longitude: String,
}

/// Why a position text could not be read.
#[derive(Debug, PartialEq)]
pub enum GeoPositionError {
    /// The position text (given) has fewer than two pieces.
    Invalid(String),
}

impl GeoPosition {
    /// Reads "latitude, longitude" or "latitude longitude" text into its two pieces.
    pub fn try_from_str(value: &str) -> (r: Result<GeoPosition, GeoPositionError>)
        ensures
            match split_coordinates(value@) {
                Some((lat, lon)) => r matches Ok(p) && p.latitude@ == lat && p.longitude@ == lon,
                None => r matches Err(GeoPositionError::Invalid(t)) && t@ == value@,
            },
    {
        match split_position(value) {
            Some((latitude, longitude)) => Ok(GeoPosition { latitude, longitude }),
            None => Err(GeoPositionError::Invalid(String::from_str(value))),
        }
    }
}

/// A stop of the trip with its real-time estimate.
#[derive(Debug, PartialEq)]
pub struct TransitStop {
    pub position: GeoPosition,
    pub description: String,
    pub real_time_info: RealTimeInfo,
}

/// The trip's state code at a stop and its estimated times there.
#[derive(Debug, PartialEq)]
pub struct RealTimeInfo {
    pub trip_status: i64,
    pub estimated_arrival_time: Option<String>,
    pub estimated_departure_time: Option<String>,
}

} // verus!
