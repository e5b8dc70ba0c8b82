//! What the remote data service sends back.

pub mod models;
pub mod queries;
