use perthtransport::pta;
use perthtransport::text::i64_to_decimal;
use perthtransport::types::converters::{split_position, ConversionError};
use perthtransport::types::response::realtime::{GeoPosition, RealTimeResponse, TransitStopStatus};
use perthtransport::types::response::route::{RouteResponse, RouteType};
use perthtransport::types::response::trip::LiveTripResponse;
use perthtransport::types::transperth::realtime::{
    PTARealTimeInfo2, PTARealTimeResponse, PTATransitStop, PTATripStop,
};
use perthtransport::types::transperth::route::{PTARoute, PTARouteResponse};
use perthtransport::types::transperth::trip::{PTAGetTripInfosResult, PTATripResponse};

fn pair(a: &str, b: &str) -> Option<(String, String)> {
    Some((a.to_string(), b.to_string()))
}

#[test]
fn split_position_comma_separated() {
    assert_eq!(split_position("-31.95, 115.86"), pair("-31.95", "115.86"));
}

#[test]
fn split_position_space_separated() {
    assert_eq!(split_position("-31.95 115.86"), pair("-31.95", "115.86"));
}

#[test]
fn split_position_takes_first_two_pieces() {
    assert_eq!(split_position("1 2 3"), pair("1", "2"));
    assert_eq!(split_position("1, 2, 3"), pair("1", "2"));
}

#[test]
fn split_position_comma_without_space_is_one_piece() {
    assert_eq!(split_position("-31.95,115.86"), None);
}

#[test]
fn split_position_empty_and_single() {
    assert_eq!(split_position(""), None);
    assert_eq!(split_position("115.86"), None);
    assert_eq!(split_position(" "), pair("", ""));
}

#[test]
fn geo_position_try_from_str_reports_text() {
    assert_eq!(
        GeoPosition::try_from_str("nowhere"),
        Err(ConversionError::GeoPositionInvalid("nowhere".to_string()))
    );
    let p = GeoPosition::try_from_str("-32.0, 115.9").unwrap();
    assert_eq!(p.latitude, "-32.0");
    assert_eq!(p.longitude, "115.9");
}

#[test]
fn pta_geo_position_try_from_str() {
    let p = pta::realtime::GeoPosition::try_from_str("-32.0 115.9").unwrap();
    assert_eq!(p.latitude, "-32.0");
    assert_eq!(p.longitude, "115.9");
    assert_eq!(
        pta::realtime::GeoPosition::try_from_str("x"),
        Err(pta::realtime::GeoPositionError::Invalid("x".to_string()))
    );
}

#[test]
fn decimal_formatting_matches_to_string() {
    for n in [0i64, 7, 10, 42, 1234567890, -1, -7, -100, i64::MAX, i64::MIN] {
        assert_eq!(i64_to_decimal(n), n.to_string());
    }
}

#[test]
fn transit_stop_status_codes() {
    assert_eq!(TransitStopStatus::from(1), TransitStopStatus::Scheduled);
    assert_eq!(TransitStopStatus::from(2), TransitStopStatus::AtStation);
    assert_eq!(TransitStopStatus::from(3), TransitStopStatus::Completed);
}

fn route(code: &str, name: &str, group: &str) -> PTARoute {
    PTARoute {
        code: code.to_string(),
        name: name.to_string(),
        route_timetable_group_id: group.to_string(),
        ..Default::default()
    }
}

#[test]
fn route_response_from_trains_and_buses() {
    let value = PTARouteResponse {
        routes: vec![route("", "Mandurah Line", "RTG_13"), route("950", "Circle", "RTG_950")],
        ..Default::default()
    };
    let res = RouteResponse::from(value);
    assert_eq!(res.routes().len(), 2);
    assert_eq!(*res.routes[0].route_type(), RouteType::Train);
    assert_eq!(res.routes[0].identifier(), "Mandurah Line");
    assert_eq!(res.routes[0].timetable_id(), "RTG_13");
    assert_eq!(*res.routes[1].route_type(), RouteType::Bus);
    assert_eq!(res.routes[1].identifier(), "950");
    assert_eq!(res.routes[1].timetable_id(), "RTG_950");
}

#[test]
fn route_response_from_empty() {
    let res = RouteResponse::from(PTARouteResponse::default());
    assert!(res.routes.is_empty());
}

fn trip(status: &str, id: i64) -> PTAGetTripInfosResult {
    PTAGetTripInfosResult { status: status.to_string(), trip_id: id, ..Default::default() }
}

#[test]
fn live_trip_response_keeps_live_trips_in_order() {
    let value = PTATripResponse {
        get_trip_infos_result: vec![
            trip("Live", 12),
            trip("Not Found", 13),
            trip("Live", -4),
            trip("live", 5),
        ],
    };
    let res = LiveTripResponse::from(value);
    assert_eq!(
        res.live_trips(),
        &vec!["PerthRestricted:12".to_string(), "PerthRestricted:-4".to_string()]
    );
}

fn stop(position: &str, description: &str, status: Option<i64>) -> PTATripStop {
    PTATripStop {
        transit_stop: PTATransitStop {
            position: position.to_string(),
            description: description.to_string(),
            ..Default::default()
        },
        real_time_info: status.map(|s| PTARealTimeInfo2 {
            real_time_trip_status: s,
            estimated_departure_time: Some("10:01".to_string()),
            estimated_arrival_time: None,
        }),
        ..Default::default()
    }
}

fn realtime(stops: Vec<PTATripStop>, current: &str) -> PTARealTimeResponse {
    let mut value = PTARealTimeResponse::default();
    value.trip_stops = stops;
    value.summary.route_name = "Airport Line".to_string();
    value.summary.trip_uid = "PerthRestricted:99".to_string();
    value.summary.trip_start_time = "09:58".to_string();
    value.summary.real_time_info.current_position = current.to_string();
    value.summary.real_time_info.last_updated = "10:00".to_string();
    value
}

#[test]
fn realtime_response_try_from_success() {
    let value = realtime(
        vec![stop("-31.9, 115.8", "Perth", Some(3)), stop("-31.8 115.9", "Bayswater", None)],
        "-31.85, 115.85",
    );
    let res = RealTimeResponse::try_from(value).unwrap();
    assert_eq!(res.route_name, "Airport Line");
    assert_eq!(res.trip_id, "PerthRestricted:99");
    assert_eq!(res.start_time, "09:58");
    assert_eq!(res.last_updated, "10:00");
    assert_eq!(res.current_position.latitude, "-31.85");
    assert_eq!(res.current_position.longitude, "115.85");
    assert_eq!(res.transit_stops.len(), 2);
    assert_eq!(res.transit_stops[0].description, "Perth");
    let info = res.transit_stops[0].real_time_info.as_ref().unwrap();
    assert_eq!(info.trip_status, TransitStopStatus::Completed);
    assert_eq!(info.estimated_departure_time, Some("10:01".to_string()));
    assert_eq!(info.estimated_arrival_time, None);
    assert!(res.transit_stops[1].real_time_info.is_none());
    assert_eq!(res.transit_stops[1].position.longitude, "115.9");
}

#[test]
fn realtime_response_try_from_bad_stop() {
    let value = realtime(vec![stop("-31.9, 115.8", "Perth", Some(1)), stop("?", "Lost", None)], "1, 2");
    assert_eq!(RealTimeResponse::try_from(value), Err(ConversionError::TransitStopMapping));
}

#[test]
fn realtime_response_try_from_bad_current_position() {
    let value = realtime(vec![stop("-31.9, 115.8", "Perth", Some(2))], "unknown");
    assert_eq!(
        RealTimeResponse::try_from(value),
        Err(ConversionError::GeoPositionInvalid("unknown".to_string()))
    );
}

#[test]
fn realtime_response_try_from_no_stops() {
    let res = RealTimeResponse::try_from(realtime(vec![], "1 2")).unwrap();
    assert!(res.transit_stops.is_empty());
}
