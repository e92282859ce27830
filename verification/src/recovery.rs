//! Recovery: simulation, approvals, incidents and repair.
pub mod approval;
pub mod engine;
pub mod incidents;
pub mod limits;
pub mod workflow;
