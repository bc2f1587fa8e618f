use vstd::prelude::*;

verus! {

/// The routes that match a search.
#[derive(Debug, PartialEq)]
pub struct RouteResponse {
    pub routes: Vec<Route>,
}

/// A route: a bus number or a train line's name, and the timetable group it runs on.
#[derive(Debug, PartialEq)]
pub struct Route {
    pub route_type: RouteType,
    pub identifier: String,
    pub timetable_id: String,
}

/// The kind of vehicle that runs a route.
#[derive(Debug, Clone, Copy, PartialEq, Eq)]
pub enum RouteType {
    Bus,
    Train,
}

impl RouteResponse {
    /// The routes found.
    pub fn routes(&self) -> (r: &Vec<Route>)
        ensures
            r == &self.routes,
    {
        &self.routes
    }
}

impl Route {
    /// The bus number or the train line's name.
    pub fn identifier(&self) -> (r: &String)
        ensures
            r == &self.identifier,
    {
        &self.identifier
    }

    /// The timetable group the route runs on.
    pub fn timetable_id(&self) -> (r: &String)
        ensures
            r == &self.timetable_id,
    {
        &self.timetable_id
    }

    /// Whether buses or trains run the route.
    pub fn route_type(&self) -> (r: &RouteType)
        ensures
            r == &self.route_type,
    {
        &self.route_type
    }
}

} // verus!
