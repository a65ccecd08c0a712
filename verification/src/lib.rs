//! A conformance and network-exploration library for nodes speaking the
//! Zcash peer-to-peer wire protocol.
//!
//! The library holds the verified core: the byte-exact wire codec
//! ([`codec`], [`payload`], [`message`]), the hash identities of blocks and
//! transactions ([`digest`]), the synthetic peer's message filter
//! ([`filter`]) and handshake state machine ([`handshake`]), the crawler's
//! node and connection bookkeeping ([`network`]), and the node supervisor's
//! seeding script and block-service expectations ([`node`]). Sockets,
//! subprocesses and clocks stay outside: callers hand in bytes, messages
//! and timestamps, and get exact answers back.

use vstd::prelude::*;

pub mod codec;
pub mod payload;
pub mod digest;
pub mod message;
pub mod filter;
pub mod handshake;
pub mod network;
pub mod node;

verus! {

/// Errors raised by the wire codec.
///
/// `UnexpectedEof` means the input ended before a complete value could be
/// read; `InvalidData` means the bytes were well-delimited but malformed.
#[derive(Clone, Copy, Debug, PartialEq, Eq, Structural)]
pub enum CodecError {
    UnexpectedEof,
    InvalidData,
}

} // verus!
