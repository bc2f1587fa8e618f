//! What clients of the service are sent.
pub mod realtime;
pub mod route;
pub mod trip;
