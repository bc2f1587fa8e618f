use vstd::prelude::*;

verus! {

/// The trips of a route that are running now, by their real-time trip identifiers.
#[derive(Debug, PartialEq)]
pub struct LiveTripResponse {
    pub live_trips: Vec<String>,
}

impl LiveTripResponse {
    /// The trips running now.
    pub fn live_trips(&self) -> (r: &Vec<String>)
        ensures
            r == &self.live_trips,
    {
        &self.live_trips
    }
}

} // verus!
