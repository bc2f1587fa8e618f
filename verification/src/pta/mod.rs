//! The first generation of the client-facing types, still used by the older API and worker.
pub mod realtime;
pub mod route;
