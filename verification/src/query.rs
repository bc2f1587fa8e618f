//! Looking up which trips of a route are running now.
use crate::text::{join, join_strings, string_views};
use crate::types::transperth::timetable::{PTATimetableResponse, PTATimetableTrip};
use vstd::prelude::*;

verus! {

/// The source ids of the timetabled trips, in timetable order.
pub open spec fn timetable_trip_ids(trips: Seq<PTATimetableTrip>) -> Seq<Seq<char>> {
    trips.map_values(|t: PTATimetableTrip| t.trip_source_id@)
}

/// The `TripIDs` parameter of the trip lookup: the timetable's trip source ids joined by ",".
pub fn trip_lookup_ids(timetable: &PTATimetableResponse) -> (r: String)
    ensures
        r@ == join(timetable_trip_ids(timetable.timetable_trips@), ","@),
{
    let trips = &timetable.timetable_trips;
    let mut ids: Vec<String> = Vec::new();
    let mut i: usize = 0;
    while i < trips.len()
        invariant
            i <= trips@.len(),
            ids@.len() == i,
            forall|j: int| 0 <= j < i ==> #[trigger] ids@[j]@ == trips@[j].trip_source_id@,
        decreases trips@.len() - i,
    {
        ids.push(trips[i].trip_source_id.clone());
        i = i + 1;
    }
    assert(string_views(ids@) =~= timetable_trip_ids(trips@));
    join_strings(&ids, ",")
}

} // verus!
