//! A binary framing protocol for byte-oriented, half-duplex links.
//!
//! A [`Packet`] carries a request/response pair plus a payload, guarded by a
//! CRC-16 checksum.  A sender fills the fields, calls [`Packet::pack`] and
//! emits the wire bytes (in bulk via [`Packet::bytes`] or one at a time via
//! [`Packet::get_byte`]); a receiver feeds bytes into [`Packet::add_byte`]
//! one at a time until the packet validates or an error status is reported.

pub mod buffer;
pub mod checksum;
pub mod dataid;
pub mod laws;
pub mod packet;
pub mod traits;

pub use buffer::DataBufferErrors;
pub use dataid::DataId;
pub use packet::{Packet, Request, Response, Status, FLEM_HEADER, FLEM_HEADER_SIZE};
