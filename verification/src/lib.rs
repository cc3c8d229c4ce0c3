//! A verified client-side core for the NATS text-line messaging protocol:
//! a streaming wire codec for every client and server command, and a
//! sans-I/O connection state machine with a heartbeat-driven liveness
//! contract.  All I/O, timers and channels live outside this crate; the
//! library works on plain bytes, strings and milliseconds.

use vstd::prelude::*;

pub mod binding;
pub mod codec;
pub mod commands;
pub mod decoding;
pub mod encoder;
pub mod framing;
pub mod headers;
pub mod json;
pub mod laws;
pub mod num;
pub mod objects;
pub mod scan;
pub mod strings;

verus! {

/// Soft limit on the number of bytes the decoder inspects while searching
/// for a frame boundary.
pub const SOFT_LIMIT: usize = 65535;

} // verus!
