//! Local persistence and caching core for a media-catalog client.
//!
//! The crate models the three pieces that sit between an interactive client
//! and a rate-limited upstream catalog service: a key-value store with typed
//! expiry and stale-while-revalidate classification, the calendar date-range
//! reconciler that turns a multi-day request into a minimal set of upstream
//! fetches, and the authenticated-client state machine with its single-refresh
//! token protocol. All I/O (network, disk) is performed by the surrounding
//! application; every function here is specified and verified over explicit
//! inputs, including the current time.

pub mod auth;
pub mod cache;
pub mod calendar;
pub mod client;
pub mod dates;
pub mod model;
pub mod order;
pub mod progress;
pub mod proxy;
pub mod reconcile;
pub mod store;
pub mod strutil;
pub mod sync;
pub mod time;
pub mod token;
pub mod translation;
