//! A transport-agnostic RPC construction layer.
//!
//! Given a byte/frame-level channel, a reversible payload transform (codec)
//! and a typed serialization format, this crate assembles a typed
//! request/response exchange: a composition operator that chains a codec onto
//! a channel, an RPC session binding one channel and one format, a handler
//! dispatch loop, and the code shapes that a service schema determines
//! (request envelope, handler interface, dispatch adapter, client stub).
//! Concrete transports, formats and codecs are collaborators supplied from
//! outside; in-memory doubles of each live in `loopback`.

pub mod calc;
pub mod loopback;
pub mod rpc;
pub mod traits;
pub mod value;
