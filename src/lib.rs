//! A small real-time chat service: clients register under a display name and
//! the server routes point-to-point envelopes between connected clients.
//!
//! The verified core lives here: the envelope codec, the registry of online
//! identities, the router's delivery decision, the shutdown broadcast and the
//! decision steps of the client and server connection loops.
use vstd::prelude::*;

pub mod text;
pub mod identity;
pub mod envelope;
pub mod registry;
pub mod router;
pub mod server;
pub mod client;
pub mod task;

verus! {

} // verus!
