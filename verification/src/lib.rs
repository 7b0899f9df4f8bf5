//! A verified core for following a Jetstream event stream into feed storage.

pub mod aturi;
pub mod conduct;
pub mod connect;
pub mod consumer;
pub mod content;
pub mod decimal;
pub mod durability;
pub mod frame;
pub mod history;
pub mod pipeline;
pub mod timestamp;
pub mod writer;
