//! Campsite availability alerts: the decisions of one batch pass, from the
//! subscription list to the notification emails, with the network left to
//! the caller.

pub mod text;
pub mod model;
pub mod window;
pub mod resolver;
pub mod availability;
pub mod index;
pub mod digest;
pub mod config;
