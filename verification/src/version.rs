use crate::serializer::{Serializable, SerializeError};
use vstd::prelude::*;

verus! {

/// The protocol version carried in the second byte of a packet.
#[derive(PartialEq, Eq, Structural, Copy, Clone, Debug)]
pub enum Version {
    MustBeDiscarded,
    Version1,
    Version2,
    Unknown,
}

impl Version {
    /// The version that a byte stands for.
    pub open spec fn of_byte(value: u8) -> Version {
        if value == 0 {
            Version::MustBeDiscarded
        } else if value == 1 {
            Version::Version1
        } else if value == 2 {
            Version::Version2
        } else {
            Version::Unknown
        }
    }

    /// The byte that stands for a version; `Unknown` has none.
    pub open spec fn byte(self) -> Option<u8> {
        match self {
            Version::MustBeDiscarded => Some(0u8),
            Version::Version1 => Some(1u8),
            Version::Version2 => Some(2u8),
            Version::Unknown => None,
        }
    }

    pub fn from_u8(value: u8) -> (v: Version)
        ensures
            v == Version::of_byte(value),
    {
        match value {
            0 => Version::MustBeDiscarded,
            1 => Version::Version1,
            2 => Version::Version2,
            _ => Version::Unknown,
        }
    }

    pub fn to_u8(&self) -> (b: Option<u8>)
        ensures
            b == self.byte(),
    {
        match self {
            Version::MustBeDiscarded => Some(0),
            Version::Version1 => Some(1),
            Version::Version2 => Some(2),
            Version::Unknown => None,
        }
    }

    /// Every version but `Unknown` comes back from its own byte.
    pub proof fn lemma_byte_round_trip(v: Version)
        requires
            v != Version::Unknown,
        ensures
            v.byte() is Some,
            Version::of_byte(v.byte().unwrap()) == v,
    {
    }

    /// A byte that names a version is the byte of that version.
    pub proof fn lemma_of_byte_round_trip(value: u8)
        requires
            Version::of_byte(value) != Version::Unknown,
        ensures
            Version::of_byte(value).byte() == Some(value),
    {
    }
}

impl Serializable for Version {
    open spec fn wire(&self) -> Result<Seq<u8>, SerializeError> {
        match self.byte() {
            Some(b) => Ok(seq![b]),
            None => Err(SerializeError::UnknownVersion),
        }
    }

    fn to_bytes(&self) -> (r: Result<Vec<u8>, SerializeError>) {
        match self.to_u8() {
            Some(byte) => {
                let mut out: Vec<u8> = Vec::new();
                out.push(byte);
                assert(out@ =~= seq![byte]);
                Ok(out)
            },
            None => Err(SerializeError::UnknownVersion),
        }
    }
}

} // verus!
