//! Keeps a hosts-style file in step with the running containers of one host.
//!
//! The library holds the decisions: which listed containers are looked up,
//! how a snapshot of (identifier, name, address) entries is built from what
//! the runtime answered, how the snapshot is written out as text, and which
//! lifecycle events ask for a rebuild. Talking to the runtime and writing the
//! file are left to the caller.

pub mod names;
pub mod snapshot;
pub mod hosts;
pub mod trigger;
pub mod laws;
