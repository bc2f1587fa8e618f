//! The library's data: what the services send, what clients are sent, and the messages
//! that pass between the processes.
pub mod config;
pub mod converters;
pub mod health;
pub mod message;
pub mod response;
pub mod transperth;
