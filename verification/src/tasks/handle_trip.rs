//! A trip task: it polls the real-time service and reports each reading.
use crate::constants::{TRANSPERTH_EARLY_HOURS_END, TRANSPERTH_EARLY_HOURS_START};
use crate::types::message::{MessageContents, WorkerMessage};
use crate::types::response::realtime::{RealTimeResponse, TransitStopStatus};
use crate::types::transperth::realtime::PTARealTimeRequest;
use vstd::prelude::*;

verus! {

/// The real-time request for a trip on a day, asking for mapping data, the real-time check and
/// notes.
pub fn realtime_request(trip_id: &String, trip_date: String) -> (r: PTARealTimeRequest)
    ensures
        r.trip_uid@ == trip_id@,
        r.trip_date@ == trip_date@,
        r.is_mapping_data_returned,
        r.is_real_time_checked,
        r.return_notes,
{
    PTARealTimeRequest {
        trip_uid: trip_id.clone(),
        trip_date,
        is_mapping_data_returned: true,
        is_real_time_checked: true,
        return_notes: true,
    }
}

/// An hour (Perth time) of the early morning.
pub open spec fn is_early_hour(hour: u32) -> bool {
    TRANSPERTH_EARLY_HOURS_START <= hour <= TRANSPERTH_EARLY_HOURS_END
}

/// Whether to ask again with yesterday's date: the reply could not be read and it is early
/// morning, when a trip that started before midnight still runs on yesterday's timetable.
pub fn retry_with_previous_day(reply_unreadable: bool, hour: u32) -> (r: bool)
    ensures
        r == (reply_unreadable && is_early_hour(hour)),
{
    reply_unreadable && TRANSPERTH_EARLY_HOURS_START <= hour && hour <= TRANSPERTH_EARLY_HOURS_END
}

/// The trip has not left its first station yet: the first stop reports it as scheduled.
pub open spec fn first_stop_scheduled(r: RealTimeResponse) -> bool {
    &&& r.transit_stops@.len() > 0
    &&& r.transit_stops@[0].real_time_info matches Some(info)
    &&& info.trip_status == TransitStopStatus::Scheduled
}

/// What a reading of the trip is reported as: a trip still scheduled at its first station is
/// not worth tracking; any other reading is passed on to be published.
pub fn trip_update(trip_id: String, response: RealTimeResponse) -> (m: WorkerMessage)
    ensures
        first_stop_scheduled(response) ==> (m matches WorkerMessage::DoNotTrack(t) && t@
            == trip_id@),
        !first_stop_scheduled(response) ==> (m matches WorkerMessage::HasMessage(c) && c.response
            == response && c.trip_id@ == trip_id@ && c.publish),
        (m is DoNotTrack) <==> (response.transit_stops@.len() > 0 && (
        response.transit_stops@[0].real_time_info matches Some(info) && info.trip_status
            == TransitStopStatus::Scheduled)),
{
    let scheduled = if response.transit_stops.len() > 0 {
        match &response.transit_stops[0].real_time_info {
            Some(info) => match info.trip_status {
                TransitStopStatus::Scheduled => true,
                _ => false,
            },
            None => false,
        }
    } else {
        false
    };
    if scheduled {
        WorkerMessage::DoNotTrack(trip_id)
    } else {
        WorkerMessage::HasMessage(Box::new(MessageContents { response, trip_id, publish: true }))
    }
}

/// Whether the task goes on polling after sending `m`: it stops once the trip is not worth
/// tracking.
pub fn keeps_tracking(m: &WorkerMessage) -> (r: bool)
    ensures
        r == (m is HasMessage),
{
    match m {
        WorkerMessage::HasMessage(_) => true,
        WorkerMessage::DoNotTrack(_) => false,
    }
}

} // verus!
