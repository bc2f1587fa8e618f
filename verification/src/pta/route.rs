use vstd::prelude::*;

verus! {

/// The routes that match a search.
#[derive(Debug, PartialEq)]
pub struct RouteResponse {
    pub routes: Vec<Route>,
}

/// A route and the timetable group it runs on.
#[derive(Debug, PartialEq)]
pub struct Route {
    pub identifier: String,
    pub timetable_id: String,
}

impl RouteResponse {
    /// The routes found.
    pub fn routes(&self) -> (r: &Vec<Route>)
        ensures
            r == &self.routes,
    {
        &self.routes
    }
}

impl Route {
    /// The route's name or number.
    pub fn identifier(&self) -> (r: &String)
        ensures
            r == &self.identifier,
    {
        &self.identifier
    }

    /// The timetable group the route runs on.
    pub fn timetable_id(&self) -> (r: &String)
        ensures
            r == &self.timetable_id,
    {
        &self.timetable_id
    }
}

} // verus!
