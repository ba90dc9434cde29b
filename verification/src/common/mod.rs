//! The data model shared by every component of the engine.

pub mod collections;
pub mod converter;
pub mod error;
pub mod instance;
pub mod meta;
pub mod mission;
pub mod para;
pub mod task;
