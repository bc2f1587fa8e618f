//! The decisions of the worker's long-running tasks.
pub mod handle_active_trains;
pub mod handle_message;
pub mod handle_trip;
pub mod handle_worker_out;
