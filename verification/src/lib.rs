//! Verified core of the Lokai compute engine: admission queueing, scheduling
//! decisions, worker circuit breaking, enrollment framing, the coding-tool
//! guard rails and the daemon's error answers and notifications.
pub mod broker;
pub mod capacity;
pub mod daemon;
pub mod enroll;
pub mod node;
pub mod text;
pub mod tools;
