//! Client and server roles of a process-variable access protocol: the
//! eight-byte frame header, the codecs of the message bodies, the stream
//! framer, and the decisions of the session, discovery and beacon engines.

use vstd::prelude::*;

pub mod error;
pub mod wire;
pub mod flags;
pub mod header;
pub mod messages;
pub mod fielddesc;
pub mod frame;
pub mod session;
pub mod emitter;
pub mod client;
pub mod channel;
pub mod registry;
pub mod clients;
pub mod server;
pub mod handlers;
pub mod msgpack;
pub mod announce;

verus! {

/// The sum of two numbers that has room in 64 bits.
pub fn add(left: u64, right: u64) -> (sum: u64)
    requires
        left + right <= u64::MAX,
    ensures
        sum == left + right,
{
    left + right
}

} // verus!
