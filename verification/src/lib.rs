//! Core of a layer-4 TCP reverse proxy.
//!
//! The crate holds the verified engine of the proxy: the per-session relay
//! state machine with its two byte buffers and interest sets, the slab that
//! hands out stable tokens, the routing table mapping application ids to
//! listeners and back-end pools, and the command dispatcher.  All socket
//! I/O is performed by the surrounding program, which feeds the outcomes
//! of reads, writes, accepts and binds into these decision functions and
//! carries out the registrations and transfers they request.

pub mod buffer;
pub mod client;
pub mod config;
pub mod messages;
pub mod server;
pub mod slab;
