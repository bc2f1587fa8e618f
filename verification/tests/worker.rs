use base64::Engine;
use perthtransport::auth::{generate_realtime_auth_header, realtime_auth_header_with_nonce};
use perthtransport::config::{get_application_config, ConfigurationError};
use perthtransport::query::trip_lookup_ids;
use perthtransport::tasks::handle_active_trains::{collect_live_trip_ids, train_timetable_ids};
use perthtransport::tasks::handle_message::{plan_message, MessageError, SessionRequest};
use perthtransport::tasks::handle_trip::{
    keeps_tracking, realtime_request, retry_with_previous_day, trip_update,
};
use perthtransport::text::join_strings;
use perthtransport::types::message::{PubSubAction, PubSubMessage, WorkerMessage};
use perthtransport::types::response::realtime::{
    GeoPosition, RealTimeInfo, RealTimeResponse, TransitStop, TransitStopStatus,
};
use perthtransport::types::response::trip::LiveTripResponse;
use perthtransport::types::transperth::timetable::{PTATimetableResponse, PTATimetableTrip};
use perthtransport::websocket::{hello_message, incoming_message, SocketEvent};
use rand::SeedableRng;

fn s(x: &str) -> String {
    x.to_string()
}

#[test]
fn auth_header_known_value() {
    let header = realtime_auth_header_with_nonce("abc-def", "01022024123000", &vec![1, 2, 3, 4, 5, 6]);
    assert_eq!(
        header,
        "Custom Username=PhoneApp,Nonce=MTIzNDU2LTAxMDIyMDI0MTIzMDAw,Token=osKTh1uuSj5OCLCe/rXtUq/TouA="
    );
}

#[test]
fn auth_header_random_nonce_is_six_digits() {
    let mut rng = rand::rngs::SmallRng::seed_from_u64(7);
    let header = generate_realtime_auth_header("abc-def", "01022024123000", &mut rng);
    let rest = header.strip_prefix("Custom Username=PhoneApp,Nonce=").unwrap();
    let (nonce, token) = rest.split_once(",Token=").unwrap();
    assert_eq!(token, "osKTh1uuSj5OCLCe/rXtUq/TouA=");
    let decoded = base64::engine::general_purpose::STANDARD.decode(nonce).unwrap();
    let decoded = String::from_utf8(decoded).unwrap();
    let (digits, datetime) = decoded.split_once('-').unwrap();
    assert_eq!(datetime, "01022024123000");
    assert_eq!(digits.len(), 6);
    assert!(digits.chars().all(|c| c.is_ascii_digit()));
}

#[test]
fn join_strings_with_commas() {
    assert_eq!(join_strings(&vec![], ","), "");
    assert_eq!(join_strings(&vec![s("a")], ","), "a");
    assert_eq!(join_strings(&vec![s("a"), s("b"), s("c")], ","), "a,b,c");
}

#[test]
fn trip_lookup_ids_joins_source_ids() {
    let mut timetable = PTATimetableResponse::default();
    timetable.timetable_trips = vec![
        PTATimetableTrip { trip_source_id: s("111"), ..Default::default() },
        PTATimetableTrip { trip_source_id: s("222"), ..Default::default() },
    ];
    assert_eq!(trip_lookup_ids(&timetable), "111,222");
    assert_eq!(trip_lookup_ids(&PTATimetableResponse::default()), "");
}

#[test]
fn train_lines_are_the_eight_lines() {
    let ids = train_timetable_ids();
    assert_eq!(ids.len(), 8);
    assert_eq!(ids[0], "PerthRestricted:RTG_16");
    assert_eq!(ids[7], "PerthRestricted:RTG_9");
}

#[test]
fn collect_live_trip_ids_skips_failed_lookups() {
    let results = vec![
        Some(LiveTripResponse { live_trips: vec![s("a"), s("b")] }),
        None,
        Some(LiveTripResponse { live_trips: vec![] }),
        Some(LiveTripResponse { live_trips: vec![s("c")] }),
    ];
    assert_eq!(collect_live_trip_ids(&results), vec![s("a"), s("b"), s("c")]);
}

#[test]
fn plan_message_variants() {
    let msg = |action, trip_id: Option<&str>| PubSubMessage {
        action,
        socket_id: s("sock"),
        trip_id: trip_id.map(s),
    };
    assert_eq!(plan_message(msg(PubSubAction::Hello, None)), Ok(SessionRequest::Hello { socket_id: s("sock") }));
    assert_eq!(plan_message(msg(PubSubAction::Bye, Some("t"))), Ok(SessionRequest::Bye { socket_id: s("sock") }));
    assert_eq!(
        plan_message(msg(PubSubAction::TripAdd, Some("t"))),
        Ok(SessionRequest::TripAdd { socket_id: s("sock"), trip_id: s("t") })
    );
    assert_eq!(plan_message(msg(PubSubAction::TripAdd, None)), Err(MessageError::MissingTripId));
}

fn response(first_status: Option<TransitStopStatus>, stops: usize) -> RealTimeResponse {
    let mut transit_stops = Vec::new();
    for i in 0..stops {
        transit_stops.push(TransitStop {
            position: GeoPosition { latitude: s("1"), longitude: s("2") },
            description: format!("stop {}", i),
            real_time_info: if i == 0 {
                first_status.map(|trip_status| RealTimeInfo {
                    trip_status,
                    estimated_arrival_time: None,
                    estimated_departure_time: None,
                })
            } else {
                None
            },
        });
    }
    RealTimeResponse {
        trip_id: s("PerthRestricted:1"),
        route_name: s("Airport Line"),
        current_position: GeoPosition { latitude: s("1"), longitude: s("2") },
        last_updated: s("10:00"),
        start_time: s("09:00"),
        transit_stops,
    }
}

#[test]
fn trip_scheduled_at_first_stop_is_not_tracked() {
    let m = trip_update(s("t"), response(Some(TransitStopStatus::Scheduled), 3));
    assert_eq!(m, WorkerMessage::DoNotTrack(s("t")));
    assert!(!keeps_tracking(&m));
}

#[test]
fn trip_under_way_is_published() {
    for first in [Some(TransitStopStatus::AtStation), Some(TransitStopStatus::Completed), None] {
        let m = trip_update(s("t"), response(first, 2));
        assert!(keeps_tracking(&m));
        match m {
            WorkerMessage::HasMessage(c) => {
                assert_eq!(c.trip_id, "t");
                assert!(c.publish);
                assert_eq!(c.response, response(first, 2));
            }
            WorkerMessage::DoNotTrack(_) => panic!("trip under way must be published"),
        }
    }
    let m = trip_update(s("t"), response(None, 0));
    assert!(keeps_tracking(&m));
}

#[test]
fn retry_only_early_in_the_morning() {
    assert!(retry_with_previous_day(true, 0));
    assert!(retry_with_previous_day(true, 3));
    assert!(!retry_with_previous_day(true, 4));
    assert!(!retry_with_previous_day(true, 23));
    assert!(!retry_with_previous_day(false, 1));
}

#[test]
fn realtime_request_fields() {
    let r = realtime_request(&s("PerthRestricted:5"), s("2024-02-01"));
    assert_eq!(r.trip_uid, "PerthRestricted:5");
    assert_eq!(r.trip_date, "2024-02-01");
    assert!(r.is_mapping_data_returned && r.is_real_time_checked && r.return_notes);
}

#[test]
fn websocket_events() {
    let hello = hello_message(&s("x"));
    assert_eq!(hello, PubSubMessage { action: PubSubAction::Hello, socket_id: s("x"), trip_id: None });
    assert_eq!(
        incoming_message(&s("x"), &SocketEvent::Close),
        Some(PubSubMessage { action: PubSubAction::Bye, socket_id: s("x"), trip_id: None })
    );
    assert_eq!(incoming_message(&s("x"), &SocketEvent::Text(s("{\"tripId\":\"1\"}"))), None);
    assert_eq!(incoming_message(&s("x"), &SocketEvent::Other), None);
    assert_eq!(
        incoming_message(&s("x"), &SocketEvent::Ended),
        Some(PubSubMessage { action: PubSubAction::Bye, socket_id: s("x"), trip_id: None })
    );
}

fn missing(key: &str) -> config::ConfigError {
    config::ConfigError::NotFound(key.to_string())
}

#[test]
fn get_application_config_all_present() {
    let cfg = get_application_config(Ok(s("redis://x")), Ok(s("rt")), Ok(s("ref"))).unwrap();
    assert_eq!(cfg.redis_connection_string, "redis://x");
    assert_eq!(cfg.realtime_api_key, "rt");
    assert_eq!(cfg.reference_data_api_key, "ref");
}

#[test]
fn get_application_config_reports_first_missing() {
    match get_application_config(Ok(s("redis://x")), Err(missing("realtime_api_key")), Err(missing("other"))) {
        Err(ConfigurationError::Setting { key, .. }) => assert_eq!(key, "realtime_api_key"),
        other => panic!("unexpected {:?}", other),
    }
    match get_application_config(Err(missing("a")), Ok(s("rt")), Ok(s("ref"))) {
        Err(ConfigurationError::Setting { key, .. }) => assert_eq!(key, "redis_connection_string"),
        other => panic!("unexpected {:?}", other),
    }
    match get_application_config(Ok(s("a")), Ok(s("rt")), Err(missing("c"))) {
        Err(ConfigurationError::Setting { key, .. }) => assert_eq!(key, "reference_data_api_key"),
        other => panic!("unexpected {:?}", other),
    }
}

