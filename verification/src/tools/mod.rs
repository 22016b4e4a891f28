pub mod catalog;
pub mod command;
pub mod detect;
pub mod dispatch;
pub mod grep;
pub mod pattern;
pub mod listing;
pub mod read;
pub mod retrieval;
pub mod toolset;
pub mod types;
pub mod verify;
pub mod workspace;
