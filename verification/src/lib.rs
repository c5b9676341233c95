//! Reverse-tunnel relay core: framed control protocol, slug registry,
//! request/response correlation, and the pure decision logic of the
//! server and client tunnel sessions.

pub mod client;
pub mod decode;
pub mod ext;
pub mod frame;
pub mod headers;
pub mod ingress;
pub mod json;
pub mod laws;
pub mod parse;
pub mod pending;
pub mod protocol;
pub mod registry;
pub mod session;
pub mod smap;
pub mod strutil;

use vstd::prelude::*;

verus! {

/// Capacity of a server session's outbound queue of pending requests.
pub const OUTBOUND_QUEUE_CAPACITY: usize = 64;

/// Capacity of the client's serialized-writes queue.
pub const CLIENT_WRITE_QUEUE_CAPACITY: usize = 256;

/// Seconds the HTTP ingress waits for a relayed response.
pub const REPLY_TIMEOUT_SECS: u64 = 10;

/// Seconds the client allows its local HTTP request to take.
pub const LOCAL_HTTP_TIMEOUT_SECS: u64 = 12;

/// Seconds between server keep-alive pings.
pub const HEARTBEAT_PERIOD_SECS: u64 = 30;

} // verus!
