//! The typed messages: for each message name its request, reply and inform
//! shapes, and the conversions between them and raw messages.

pub mod common;
pub mod float_literal;
pub mod timestamp;
pub mod address;
pub mod argument_vec;
pub mod device;
pub mod log;
pub mod multi_client;
pub mod sensor;
pub mod sensors;
