//! A health-reporting service: a registry of the serving status of named
//! services, a point-in-time query, and subscriptions that stream every status
//! change of one service to a watcher.
//!
//! The registry and the log of published changes are plain data, and every
//! operation on them is verified against a mathematical model: a map from name
//! to status and a sequence of change events. The hand-over to asynchronous
//! tasks goes through two channels of `tokio`, a latest-value channel that wakes
//! watchers and a bounded queue per watcher for its responses.

pub mod status;
pub mod error;
pub mod model;
pub mod event;
pub mod signal;
pub mod registry;
pub mod broadcaster;
pub mod watcher;
pub mod health_check;
pub mod laws;
