//! Turning the Transperth documents into what clients are sent.
use crate::text::{
    after, before_first, contains_char, find, first_match_from, i64_to_decimal, int_decimal,
    lemma_first_match_is_occurrence, segment_before,
};
use crate::types::response::realtime::{
    GeoPosition, RealTimeInfo, RealTimeResponse, TransitStop, TransitStopStatus,
};
use crate::types::response::route::{Route, RouteResponse, RouteType};
use crate::types::response::trip::LiveTripResponse;
use crate::types::transperth::realtime::{PTARealTimeResponse, PTATripStop};
use crate::types::transperth::route::{PTARoute, PTARouteResponse};
use crate::types::transperth::trip::{PTAGetTripInfosResult, PTATripResponse};
use vstd::prelude::*;

verus! {

/// Why a real-time reply could not be turned into a response.
#[derive(Debug, PartialEq)]
pub enum ConversionError {
    /// Some stop's position could not be read.
    TransitStopMapping,
    /// The position text (given) could not be read.
    GeoPositionInvalid(String),
}

/// The separator between the two coordinates: ", " when the text holds a comma, else " ".
pub open spec fn position_separator(v: Seq<char>) -> Seq<char> {
    if v.contains(',') {
        seq![',', ' ']
    } else {
        seq![' ']
    }
}

/// The first two pieces of `v` split at `position_separator(v)`, or `None` when there is
/// only one piece.
pub open spec fn split_coordinates(v: Seq<char>) -> Option<(Seq<char>, Seq<char>)> {
    let sep = position_separator(v);
    match first_match_from(v, sep, 0) {
        Some(i) => Some((v.subrange(0, i), segment_before(v.subrange(i + sep.len(), v.len() as int), sep))),
        None => None,
    }
}

/// The two coordinate texts of a position text, as `str::split` yields its first two pieces.
pub fn split_position(value: &str) -> (r: Option<(String, String)>)
    ensures
        match r {
            Some((a, b)) => split_coordinates(value@) == Some((a@, b@)),
            None => split_coordinates(value@) is None,
        },
{
    let sep = if contains_char(value, ',') {
        ", "
    } else {
        " "
    };
    proof {
        reveal_strlit(", ");
        reveal_strlit(" ");
        assert(sep@ =~= position_separator(value@));
        lemma_first_match_is_occurrence(value@, sep@, 0);
    }
    let _n = value.unicode_len();
    match find(value, sep) {
        Some(i) => {
            let first = String::from_str(value.substring_char(0, i));
            let rest = after(value, i + sep.unicode_len());
            let second = before_first(rest, sep);
            Some((first, second))
        },
        None => None,
    }
}

impl GeoPosition {
    /// Reads "latitude, longitude" or "latitude longitude" text into its two coordinates.
    pub fn try_from_str(value: &str) -> (r: Result<GeoPosition, ConversionError>)
        ensures
            match split_coordinates(value@) {
                Some((lat, lon)) => r matches Ok(p) && p.latitude@ == lat && p.longitude@ == lon,
                None => r matches Err(ConversionError::GeoPositionInvalid(t)) && t@ == value@,
            },
    {
        match split_position(value) {
            Some((latitude, longitude)) => Ok(GeoPosition { latitude, longitude }),
            None => Err(ConversionError::GeoPositionInvalid(String::from_str(value))),
        }
    }
}

/// A real-time trip status code the service defines: 1, 2 or 3.
pub open spec fn is_status_code(value: i64) -> bool {
    1 <= value <= 3
}

/// The status a defined status code stands for.
pub open spec fn status_of_code(value: i64) -> TransitStopStatus {
    if value == 3 {
        TransitStopStatus::Completed
    } else if value == 2 {
        TransitStopStatus::AtStation
    } else {
        TransitStopStatus::Scheduled
    }
}

impl TransitStopStatus {
    /// The status a code of the real-time service stands for; other codes are not accepted.
    pub fn from(value: i64) -> (r: TransitStopStatus)
        requires
            is_status_code(value),
        ensures
            r == status_of_code(value),
    {
        match value {
            3 => TransitStopStatus::Completed,
            2 => TransitStopStatus::AtStation,
            _ => TransitStopStatus::Scheduled,
        }
    }
}

/// Buses have a route code; trains have none.
pub open spec fn route_type_of(r: PTARoute) -> RouteType {
    if r.code@.len() == 0 {
        RouteType::Train
    } else {
        RouteType::Bus
    }
}

/// A train line is known by its name, a bus route by its code.
pub open spec fn route_identifier_of(r: PTARoute) -> Seq<char> {
    if r.code@.len() == 0 {
        r.name@
    } else {
        r.code@
    }
}

/// `out` is the route the search result `r` becomes.
pub open spec fn route_matches(out: Route, r: PTARoute) -> bool {
    &&& out.route_type == route_type_of(r)
    &&& out.identifier@ == route_identifier_of(r)
    &&& out.timetable_id@ == r.route_timetable_group_id@
}

impl RouteResponse {
    /// One route per search result, in the same order.
    pub fn from(value: PTARouteResponse) -> (res: RouteResponse)
        ensures
            res.routes@.len() == value.routes@.len(),
            forall|i: int|
                0 <= i < value.routes@.len() ==> route_matches(
                    #[trigger] res.routes@[i],
                    value.routes@[i],
                ),
    {
        let mut routes: Vec<Route> = Vec::new();
        let mut i: usize = 0;
        while i < value.routes.len()
            invariant
                i <= value.routes@.len(),
                routes@.len() == i,
                forall|j: int|
                    0 <= j < i ==> route_matches(#[trigger] routes@[j], value.routes@[j]),
            decreases value.routes@.len() - i,
        {
            let x = &value.routes[i];
            let is_train = x.code.as_str().is_empty();
            let route = Route {
                route_type: if is_train {
                    RouteType::Train
                } else {
                    RouteType::Bus
                },
                identifier: if is_train {
                    x.name.clone()
                } else {
                    x.code.clone()
                },
                timetable_id: x.route_timetable_group_id.clone(),
            };
            routes.push(route);
            i = i + 1;
        }
        RouteResponse { routes }
    }
}

/// The real-time identifier of a trip of the trip lookup.
pub open spec fn live_trip_name(trip_id: i64) -> Seq<char> {
    "PerthRestricted:"@ + int_decimal(trip_id as int)
}

/// The identifiers of the results whose status is "Live", in order.
pub open spec fn live_trip_names(rs: Seq<PTAGetTripInfosResult>) -> Seq<Seq<char>>
    decreases rs.len(),
{
    if rs.len() == 0 {
        Seq::empty()
    } else {
        let rest = live_trip_names(rs.drop_last());
        if rs.last().status@ == "Live"@ {
            rest.push(live_trip_name(rs.last().trip_id))
        } else {
            rest
        }
    }
}

impl LiveTripResponse {
    /// The trips the lookup reports as "Live", named as the real-time service names them.
    pub fn from(value: PTATripResponse) -> (res: LiveTripResponse)
        ensures
            res.live_trips@.map_values(|s: String| s@) == live_trip_names(
                value.get_trip_infos_result@,
            ),
    {
        let live = String::from_str("Live");
        let rs = &value.get_trip_infos_result;
        let mut out: Vec<String> = Vec::new();
        let mut i: usize = 0;
        while i < rs.len()
            invariant
                i <= rs@.len(),
                live@ == "Live"@,
                out@.map_values(|s: String| s@) == live_trip_names(rs@.take(i as int)),
            decreases rs@.len() - i,
        {
            assert(rs@.take(i + 1).drop_last() =~= rs@.take(i as int));
            let x = &rs[i];
            if x.status == live {
                let mut name = String::from_str("PerthRestricted:");
                let digits = i64_to_decimal(x.trip_id);
                name.append(digits.as_str());
                proof {
                    reveal_strlit("PerthRestricted:");
                }
                let ghost before = out@;
                out.push(name);
                assert(out@.map_values(|s: String| s@) =~= before.map_values(|s: String| s@).push(
                    live_trip_name(x.trip_id),
                ));
            }
            i = i + 1;
        }
        assert(rs@.take(rs@.len() as int) =~= rs@);
        LiveTripResponse { live_trips: out }
    }
}

/// The position of the stop can be read.
pub open spec fn stop_position_readable(t: PTATripStop) -> bool {
    split_coordinates(t.transit_stop.position@) is Some
}

/// Every stop whose position can be read and that has a real-time estimate carries a defined
/// status code (any other code stops the conversion).
pub open spec fn statuses_defined(stops: Seq<PTATripStop>) -> bool {
    forall|i: int|
        0 <= i < stops.len() && stop_position_readable(#[trigger] stops[i]) && stops[i].real_time_info is Some
            ==> is_status_code(stops[i].real_time_info->0.real_time_trip_status)
}

/// `out` is the stop that `t` becomes.
pub open spec fn stop_matches(out: TransitStop, t: PTATripStop) -> bool {
    let (lat, lon) = split_coordinates(t.transit_stop.position@)->0;
    &&& out.position.latitude@ == lat
    &&& out.position.longitude@ == lon
    &&& out.description@ == t.transit_stop.description@
    &&& match t.real_time_info {
        None => out.real_time_info is None,
        Some(rti) => out.real_time_info matches Some(o) && o.trip_status == status_of_code(
            rti.real_time_trip_status,
        ) && o.estimated_arrival_time == rti.estimated_arrival_time
            && o.estimated_departure_time == rti.estimated_departure_time,
    }
}

fn convert_stop(t: &PTATripStop) -> (r: Option<TransitStop>)
    requires
        stop_position_readable(*t) && t.real_time_info is Some ==> is_status_code(
            t.real_time_info->0.real_time_trip_status,
        ),
    ensures
        r is Some <==> stop_position_readable(*t),
        r matches Some(o) ==> stop_matches(o, *t),
{
    match split_position(t.transit_stop.position.as_str()) {
        None => None,
        Some((latitude, longitude)) => {
            let real_time_info = match &t.real_time_info {
                None => None,
                Some(rti) => Some(
                    RealTimeInfo {
                        trip_status: TransitStopStatus::from(rti.real_time_trip_status),
                        estimated_arrival_time: rti.estimated_arrival_time.clone(),
                        estimated_departure_time: rti.estimated_departure_time.clone(),
                    },
                ),
            };
            Some(
                TransitStop {
                    position: GeoPosition { latitude, longitude },
                    description: t.transit_stop.description.clone(),
                    real_time_info,
                },
            )
        },
    }
}

impl RealTimeResponse {
    /// The response for a real-time reply: every stop's position and the vehicle's position must
    /// be readable; the stops keep their order.
    pub fn try_from(value: PTARealTimeResponse) -> (r: Result<RealTimeResponse, ConversionError>)
        requires
            statuses_defined(value.trip_stops@),
        ensures
            !(forall|i: int|
                0 <= i < value.trip_stops@.len() ==> stop_position_readable(
                    #[trigger] value.trip_stops@[i],
                )) ==> r == Err::<RealTimeResponse, ConversionError>(
                ConversionError::TransitStopMapping,
            ),
            (forall|i: int|
                0 <= i < value.trip_stops@.len() ==> stop_position_readable(
                    #[trigger] value.trip_stops@[i],
                )) ==> match split_coordinates(value.summary.real_time_info.current_position@) {
                None => r matches Err(ConversionError::GeoPositionInvalid(t)) && t@
                    == value.summary.real_time_info.current_position@,
                Some((lat, lon)) => r matches Ok(res) && {
                    &&& res.route_name@ == value.summary.route_name@
                    &&& res.trip_id@ == value.summary.trip_uid@
                    &&& res.current_position.latitude@ == lat
                    &&& res.current_position.longitude@ == lon
                    &&& res.last_updated@ == value.summary.real_time_info.last_updated@
                    &&& res.start_time@ == value.summary.trip_start_time@
                    &&& res.transit_stops@.len() == value.trip_stops@.len()
                    &&& forall|i: int|
                        0 <= i < value.trip_stops@.len() ==> stop_matches(
                            #[trigger] res.transit_stops@[i],
                            value.trip_stops@[i],
                        )
                },
            },
    {
        let stops = &value.trip_stops;
        let mut transit_stops: Vec<TransitStop> = Vec::new();
        let mut all_readable = true;
        let mut i: usize = 0;
        while i < stops.len()
            invariant
                i <= stops@.len(),
                statuses_defined(stops@),
                all_readable ==> transit_stops@.len() == i,
                all_readable ==> forall|j: int|
                    0 <= j < i ==> stop_matches(#[trigger] transit_stops@[j], stops@[j]),
                all_readable <==> forall|j: int|
                    0 <= j < i ==> stop_position_readable(#[trigger] stops@[j]),
            decreases stops@.len() - i,
        {
            let converted = convert_stop(&stops[i]);
            match converted {
                Some(stop) => {
                    if all_readable {
                        transit_stops.push(stop);
                    }
                },
                None => {
                    all_readable = false;
                },
            }
            i = i + 1;
        }
        if !all_readable {
            return Err(ConversionError::TransitStopMapping);
        }
        let current_position = GeoPosition::try_from_str(
            value.summary.real_time_info.current_position.as_str(),
        )?;
        Ok(
            RealTimeResponse {
                route_name: value.summary.route_name,
                trip_id: value.summary.trip_uid,
                current_position,
                last_updated: value.summary.real_time_info.last_updated,
                start_time: value.summary.trip_start_time,
                transit_stops,
            },
        )
    }
}

} // verus!
