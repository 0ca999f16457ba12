//! Transport-independent remote procedure calls: call identities, wire
//! frames, a server-side dispatch table and client-side correlation of
//! responses to outstanding calls.
pub mod mime;
pub mod error;
pub mod bytes;
pub mod envelope;
pub mod client;
pub mod server;
pub mod id;
pub mod calls;
pub mod subscription;
