//! Reachability and round-trip probing by a single protected QUIC long-header
//! packet: the packet builder, the tolerant response decoder and the outcome
//! classification are verified here; sockets and clocks live with the caller.

pub mod cid;
pub mod decode;
pub mod keys;
pub mod packet;
pub mod probe;
pub mod result;
pub mod varint;
