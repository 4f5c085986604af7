//! Codec for the KATCP monitor-and-control protocol: the line grammar, the
//! escaping scheme, the message model and the typed argument conversions.
//!
//! Raw messages are parsed and written in [`protocol`]; [`utils`] holds the
//! escaping scheme; [`messages`] holds the typed messages and the scalar
//! types they are made of. Each function states in its contract what it
//! returns, over the spec functions that stand beside it; the laws that
//! relate them are the public proof functions.

pub mod decimal;
pub mod messages;
pub mod prelude;
pub mod protocol;
pub mod protocol_laws;
pub mod text;
pub mod utils;
