use vstd::prelude::*;

verus! {

/// Reply of the route search.
#[derive(Default, Debug, PartialEq)]
pub struct PTARouteResponse {
    pub request: PTARequest,
    pub status: PTAStatus,
    pub routes: Vec<PTARoute>,
}

/// The route search as the service echoes it back.
#[derive(Default, Debug, PartialEq)]
pub struct PTARequest {
    pub api_key: String,
    pub data_set: String,
    pub search_term: String,
}

/// Severity of the route search reply.
#[derive(Default, Debug, PartialEq)]
pub struct PTAStatus {
    pub severity: i64,
}

/// A route found by the search; trains have an empty `code`.
#[derive(Default, Debug, PartialEq)]
pub struct PTARoute {
    pub route_uid: String,
    pub code: String,
    pub name: String,
    pub service_provider_uid: String,
    pub transport_mode: String,
    pub transport_mode_uid: String,
    pub route_timetable_group_id: String,
    pub route_source_id: String,
}

} // verus!
