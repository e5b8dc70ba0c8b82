//! Scheduling core and report logic of a small community automation bot.
//!
//! The library is pure: it never reads a clock, the network or the
//! environment. Callers hand it the current instant, the zone and the data
//! they fetched, and carry out the actions it returns.

pub mod clock;
pub mod config;
pub mod graphql;
pub mod reaction_roles;
pub mod scheduler;
pub mod tasks;
pub mod text;
pub mod zone;
