//! Connectivity core of a peer-to-peer validator network node.
//!
//! The crate decides which remote peers a node should be connected to and
//! under which identity it authenticates. It holds no sockets and spawns no
//! tasks: every entry point maps plain values to plain values, so that the
//! surrounding runtime only has to perform the commands it is handed and to
//! report back what happened.
//!
//! * [`identity`]: key material, peer identities and the authentication mode.
//! * [`address`]: structured network addresses, their text, and the
//!   transports they select.
//! * [`backoff`]: the capped exponential retry delays.
//! * [`lookup`]: finding a peer in a sequence of identities.
//! * [`registry`]: the eligible-peer registry and the seed-peer address book.
//! * [`records`]: connection records, commands and events.
//! * [`model`]: the reconciliation engine as a function of state and event.
//! * [`manager`]: the connectivity manager, which computes that function.
//! * [`laws`]: what holds of the engine in every state.
//! * [`builder`]: the configuration value that assembles a node.

pub mod address;
pub mod backoff;
pub mod builder;
pub mod identity;
pub mod laws;
pub mod lookup;
pub mod manager;
pub mod model;
pub mod records;
pub mod registry;
