//! Documents as the Transperth services send them.
pub mod realtime;
pub mod route;
pub mod timetable;
pub mod trip;
