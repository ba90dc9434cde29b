//! The control plane: what follows from a stored or converted instance.

pub mod inner_controller;
pub mod planner;
