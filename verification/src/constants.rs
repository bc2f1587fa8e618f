//! Names shared by the processes: channels, cache keys, endpoints and timings.
use vstd::prelude::*;

verus! {

/// Channel on which the API tells the worker about websocket sessions.
pub const PUBSUB_CHANNEL_GENERAL_IN: &'static str = "perthtransport_general_in";

/// Prefix of the per-socket channels on which the worker publishes updates.
pub const PUBSUB_CHANNEL_OUT_PREFIX: &'static str = "perthtransport_out";

/// Channel on which the worker answers health checks.
pub const PUBSUB_CHANNEL_WORKER_HEALTH_OUT: &'static str = "perthtransport_worker_health_out";

/// Channel on which health checks reach the worker.
pub const PUBSUB_CHANNEL_WORKER_HEALTH_IN: &'static str = "perthtransport_worker_health_in";

/// Prefix of the cache keys that hold a trip's last update.
pub const CACHE_KEY_PREFIX: &'static str = "perthtransport_cache";

/// Prefix of the cache keys that mark a trip as not worth tracking.
pub const DO_NOT_TRACK_KEY_PREFIX: &'static str = "perthtransport_do_not_track";

/// Cache key of the list of trains running now.
pub const ACTIVE_TRAINS_KEY: &'static str = "perthtransport_active_trains";

/// Seconds between two refreshes of the running trains.
pub const ACTIVE_TRAIN_THREAD_SLEEP: u64 = 60;

/// Seconds a trip task waits between two real-time readings.
pub const TRIP_REFRESH_SECONDS: u64 = 30;

/// Seconds a trip's last update stays in the cache.
pub const CACHE_EXPIRY_SECONDS: u64 = 29;

/// Seconds a trip stays marked as not worth tracking.
pub const DO_NOT_TRACK_EXPIRY_SECONDS: u64 = 100;

/// First hour (Perth time) of the early morning, when a trip may still run on yesterday's date.
pub const TRANSPERTH_EARLY_HOURS_START: u32 = 0;

/// Last hour (Perth time) of the early morning.
pub const TRANSPERTH_EARLY_HOURS_END: u32 = 3;

/// Real-time trip endpoint.
pub const TRANSPERTH_REAL_TIME_API: &'static str = "https://realtime.transperth.info/SJP/v1/Transit/TripRealTime";

/// Timetable endpoint of the journey planner.
pub const TRANSPERTH_TIMETABLE_ENDPOINT: &'static str = "https://au-journeyplanner.silverrail.io/journeyplannerservice/v2/REST/DataSets/PerthRestricted/Timetable";

/// Trip information lookup.
pub const TRANSPERTH_TRIP_LOOKUP: &'static str = "https://serviceinformation.transperth.info/TripInformationService.svc/GetTripInfos";

/// Route search of the journey planner.
pub const TRANSPERTH_ROUTE_ENDPOINT: &'static str = "https://au-journeyplanner.silverrail.io/journeyplannerservice/v2/REST/DataSets/PerthRestricted/Routes";

/// Prefix of the environment variables the configuration is read from.
pub const CONFIG_PREFIX: &'static str = "PERTHTRANSPORT";

} // verus!
