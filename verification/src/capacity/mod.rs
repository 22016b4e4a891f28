pub mod applier;
pub mod detect;
pub mod doctor;
pub mod profile;
pub mod report;
pub mod status;
