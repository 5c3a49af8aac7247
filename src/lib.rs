//! Synchronisation engine that keeps locally installed Flatpak packages and
//! their repositories in step with one remotely stored snapshot.
//!
//! - [`models`]: packages, repositories, installations and timestamped snapshots.
//! - [`diff`]: the structural difference between two snapshots.
//! - [`transaction`]: the plan that takes the live state toward a target.
//! - [`live`]: what a plan does to the live state, and the laws it obeys.
//! - [`sync`]: the coordinator's cache and its push/pull decisions.
//! - [`scheduler`]: the event loop's state machine.
//! - [`gist`]: plain data exchanged with the hosted-gist remote store.
pub mod diff;
pub mod error;
pub mod gist;
pub mod live;
pub mod models;
pub mod scheduler;
pub mod sync;
pub mod text;
pub mod transaction;
