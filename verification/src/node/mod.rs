pub mod fabric;
pub mod limits;
pub mod revoke;
pub mod scheduler;
