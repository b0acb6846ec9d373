//! Forces acting on the auxiliary points.
pub mod spring;
