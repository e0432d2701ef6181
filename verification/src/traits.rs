//! The pluggable struct-encoding capability: application-defined records that
//! encode themselves into, and decode themselves from, a packet's data area.

use vstd::prelude::*;

use crate::packet::Packet;

verus! {

/// Errors reported by pluggable payload codecs.
#[derive(Debug, Clone, Copy, PartialEq, Eq, Structural)]
pub enum DataInterfaceErrors {
    IncorrectBufferLength,
    IncorrectDataLength,
}

/// Capability pair for pluggable structured payloads, implemented by the
/// surrounding application: encode a record into a packet's data area, or
/// rebuild the record from a received packet.
pub trait DataInterface: Sized {
    fn encode(&self, packet: &mut Packet) -> Result<(), DataInterfaceErrors>;

    fn decode(&mut self, packet: &Packet) -> Result<&Self, DataInterfaceErrors>;
}

} // verus!
