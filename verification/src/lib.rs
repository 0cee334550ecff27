//! A bidirectional protocol-layer pipeline: an ordered chain of translation
//! stages (handlers) between an application and a duplex byte transport.
//!
//! Outbound data moves from the application end of the chain toward the
//! transport, one handler at a time, until raw bytes are written out; inbound
//! bytes move the opposite way until the application-facing value emerges.
//! Every handler states what it translates to and promises that a failed
//! operation hands the untouched input back to the caller.

pub mod handler;
pub mod pipeline;
pub mod transport;
pub mod util;
