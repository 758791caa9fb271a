use crate::packet::Packet;
use crate::v1;
use crate::v2;
use vstd::prelude::*;

verus! {

/// Why a value has no encoding.
#[derive(Debug, PartialEq, Eq, Structural, Clone, Copy)]
pub enum SerializeError {
    UnknownCommandKind,
    UnknownVersion,
    UnknownAddressFamilyIdentifier,
}

/// The outcome of an encoder, with the bytes taken as a sequence.
pub open spec fn encoded(r: Result<Vec<u8>, SerializeError>) -> Result<Seq<u8>, SerializeError> {
    match r {
        Ok(bytes) => Ok(bytes@),
        Err(e) => Err(e),
    }
}

/// A value with a wire encoding.
pub trait Serializable {
    /// The bytes that stand for the value on the wire, or the reason why
    /// there are none.
    spec fn wire(&self) -> Result<Seq<u8>, SerializeError>;

    fn to_bytes(&self) -> (r: Result<Vec<u8>, SerializeError>)
        ensures
            encoded(r) == self.wire(),
    ;
}

/// Encodes a version 1 packet: the header's four bytes, then twenty bytes
/// for each entry in order.
pub fn serialize_v1_packet(packet: Packet<v1::Entry>) -> (r: Result<Vec<u8>, SerializeError>)
    ensures
        encoded(r) == packet@.wire(),
        r matches Ok(bytes) ==> bytes@.len() == 4 + 20 * packet@.entries.len(),
{
    proof {
        crate::packet::lemma_wire_length(packet@);
    }
    packet.to_bytes()
}

/// Encodes a version 2 packet: the header's four bytes, then twenty bytes
/// for each entry in order.
pub fn serialize_v2_packet(packet: Packet<v2::Entry>) -> (r: Result<Vec<u8>, SerializeError>)
    ensures
        encoded(r) == packet@.wire(),
        r matches Ok(bytes) ==> bytes@.len() == 4 + 20 * packet@.entries.len(),
{
    proof {
        crate::packet::lemma_wire_length(packet@);
    }
    packet.to_bytes()
}

} // verus!
