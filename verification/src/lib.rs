//! Receive-side packet multiplexer for a peer-to-peer NAT-traversal
//! transport: it sizes and reuses one batched receive buffer pool, splits
//! coalesced receive slots into discrete datagrams, classifies every
//! datagram as NAT-probe, peer-discovery, or opaque forward traffic, and
//! decides each step of the receive actor's loop, shutdown first.

pub mod actor;
pub mod bytebuf;
pub mod classify;
pub mod disco;
pub mod net;
pub mod split;
pub mod stun;
