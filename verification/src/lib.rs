//! A meta-driven data-flow engine core: instances tagged with a meta are routed,
//! converted and persisted along a declarative graph of relations.

pub mod builtin_executor;
pub mod common;
pub mod controller;
pub mod db;
pub mod fg_service;
pub mod flow;
pub mod global;
pub mod json;
pub mod mock;
pub mod task;
pub mod text;
