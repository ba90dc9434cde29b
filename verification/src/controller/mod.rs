//! The entry points of the batch channel.

pub mod act_batch;
