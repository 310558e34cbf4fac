//! Runtime-cloud decisions: the action model, the profile policy and target status.
pub mod model;
pub mod status;
pub mod policy;
pub mod errors;
pub mod address;
