pub mod attempts;
pub mod circuit;
pub mod decision;
pub mod dispatch;
pub mod decision_store;
pub mod estimate;
pub mod feedback;
pub mod fallback;
pub mod metrics;
pub mod priority;
pub mod queue;
pub mod reservation;
pub mod speculate;
pub mod stamp;
pub mod submit;
pub mod target;
pub mod types;
