//! Producer side of a distributed task queue: the task envelope, the broker
//! queue protocol and the periodic re-scheduling of recurring tasks.

pub mod envelope;
pub mod broker;
pub mod beat;
pub mod models;
