//! Soniox cloud streaming recognition.
//!
//! * [`protocol`]: the wire types, error classification and PCM framing.
//! * [`accumulator`]: the durable and volatile lanes that turn a revising token
//!   stream into transcript updates.

pub mod accumulator;
pub mod backend;
pub mod backend_laws;
pub mod client;
pub mod connection_laws;
pub mod laws;
pub mod protocol;
pub mod socket_laws;
pub mod turn_laws;
pub mod wire_laws;
