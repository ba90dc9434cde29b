//! The tasks of the pipeline and what the runtime is told to do with them.

pub mod command;
pub mod draft;
pub mod process_line;
pub mod store;
