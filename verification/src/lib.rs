//! A resilient messaging core: an envelope codec with a length-prefixed wire
//! format, a reconnecting transport modelled as a state machine, and a
//! dispatch router that fans envelopes out to registered subsystems.

pub mod builder;
pub mod business;
pub mod button;
pub mod bytes;
pub mod codec;
pub mod event;
pub mod motor;
pub mod msg;
pub mod quit;
pub mod router;
pub mod server;
pub mod subsystem;
pub mod transport;
