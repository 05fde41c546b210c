//! Simulated device pieces.

pub mod cache;
pub mod catalog;
pub mod device;
pub mod drop_report;
pub mod fault;
pub mod link;
pub mod persistence;
pub mod queue;
pub mod refusals;
pub mod sessions;
pub mod signals;
pub mod support;
