//! Chunked, checksummed, acknowledgement-driven transfer of state blobs
//! between a guest client and a host peer over a stream socket.
//!
//! The library holds the wire format, the chunking of payloads, the
//! decisions of the save and dump sessions as state machines, and the
//! compression and JSON steps around them. Sockets, files and threads are
//! left to the caller.

pub mod consts;
pub mod checksum;
pub mod header;
pub mod error;
pub mod packet;
pub mod chunking;
pub mod codec;
pub mod protocol;
pub mod session;
pub mod save;
pub mod dump;
