pub mod events;
pub mod map;
