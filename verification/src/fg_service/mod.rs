//! The services behind the channels.

pub mod convert;
