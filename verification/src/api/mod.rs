//! The values that travel between the store and the service in front of it.

pub mod handlers;
pub mod models;
pub mod responses;
