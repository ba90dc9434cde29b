//! The storage layer: the statements sent to the instance table and what
//! their rows mean.

pub mod cache;
pub mod instance_dao;
pub mod instance_store;
pub mod query;
pub mod task_log;
