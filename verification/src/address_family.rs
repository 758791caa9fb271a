use crate::big_endian::{join_u16, split_u16, u16_bytes, u16_of};
use crate::byte_reader::{out_of_input, read};
use crate::parser::{ParseError, Parsed};
use crate::serializer::{Serializable, SerializeError};
use vstd::prelude::*;

verus! {

/// The address family of an entry, carried in its first two bytes.
#[derive(PartialEq, Eq, Structural, Copy, Clone, Debug)]
pub enum Identifier {
    Unspecified,
    IP,
    AuthenticationPresent,
    Unknown,
}

impl Identifier {
    /// The address family that a 16-bit number stands for.
    pub open spec fn of_number(value: u16) -> Identifier {
        if value == 0 {
            Identifier::Unspecified
        } else if value == 2 {
            Identifier::IP
        } else if value == 65535 {
            Identifier::AuthenticationPresent
        } else {
            Identifier::Unknown
        }
    }

    /// The number that stands for an address family; `Unknown` has none.
    pub open spec fn number(self) -> Option<u16> {
        match self {
            Identifier::Unspecified => Some(0u16),
            Identifier::IP => Some(2u16),
            Identifier::AuthenticationPresent => Some(65535u16),
            Identifier::Unknown => None,
        }
    }

    /// The address family in the two bytes at `cursor`, with the cursor
    /// behind them. A number that names no address family is reported with
    /// the position of its second byte.
    pub open spec fn decode(cursor: usize, bytes: Seq<u8>) -> Result<
        Parsed<Identifier>,
        ParseError,
    > {
        if cursor + 2 <= bytes.len() {
            let value = u16_of(bytes[cursor as int], bytes[cursor + 1]);
            if Identifier::of_number(value) == Identifier::Unknown {
                Err(ParseError::UnknownAddressFamilyIdentifier(value, (cursor + 1) as usize))
            } else {
                Ok((Identifier::of_number(value), (cursor + 2) as usize))
            }
        } else {
            Err(out_of_input(cursor, bytes))
        }
    }

    pub fn from_u16(value: u16) -> (identifier: Identifier)
        ensures
            identifier == Identifier::of_number(value),
    {
        match value {
            0 => Identifier::Unspecified,
            2 => Identifier::IP,
            65535 => Identifier::AuthenticationPresent,
            _ => Identifier::Unknown,
        }
    }

    pub fn to_u16(&self) -> (n: Option<u16>)
        ensures
            n == self.number(),
    {
        match self {
            Identifier::Unspecified => Some(0),
            Identifier::IP => Some(2),
            Identifier::AuthenticationPresent => Some(65535),
            Identifier::Unknown => None,
        }
    }

    pub fn parse(cursor: usize, bytes: &[u8]) -> (r: Result<Parsed<Identifier>, ParseError>)
        ensures
            r == Identifier::decode(cursor, bytes@),
            r matches Ok((identifier, next)) ==> next == cursor + 2 && identifier
                != Identifier::Unknown,
    {
        let (first, cursor) = read(cursor, bytes)?;
        let (second, cursor) = read(cursor, bytes)?;
        let value = join_u16(first, second);
        let identifier = match Identifier::from_u16(value) {
            Identifier::Unknown => {
                return Err(ParseError::UnknownAddressFamilyIdentifier(value, cursor - 1));
            },
            identifier => identifier,
        };
        Ok((identifier, cursor))
    }

    /// Every address family but `Unknown` comes back from its own number.
    pub proof fn lemma_number_round_trip(identifier: Identifier)
        requires
            identifier != Identifier::Unknown,
        ensures
            identifier.number() is Some,
            Identifier::of_number(identifier.number().unwrap()) == identifier,
    {
    }

    /// A number that names an address family is the number of that family.
    pub proof fn lemma_of_number_round_trip(value: u16)
        requires
            Identifier::of_number(value) != Identifier::Unknown,
        ensures
            Identifier::of_number(value).number() == Some(value),
    {
    }

    /// The bytes of an address family, wherever they stand in a buffer,
    /// decode to it.
    pub proof fn lemma_round_trip(identifier: Identifier, cursor: usize, bytes: Seq<u8>)
        requires
            bytes.len() <= usize::MAX,
            cursor + 2 <= bytes.len(),
            identifier.wire() == Ok::<Seq<u8>, SerializeError>(
                bytes.subrange(cursor as int, cursor + 2),
            ),
        ensures
            Identifier::decode(cursor, bytes) == Ok::<Parsed<Identifier>, ParseError>(
                (identifier, (cursor + 2) as usize),
            ),
    {
        let part = bytes.subrange(cursor as int, cursor + 2);
        assert(part[0] == bytes[cursor as int] && part[1] == bytes[cursor + 1]);
        crate::big_endian::lemma_u16_of_bytes(identifier.number().unwrap());
    }

    /// The two bytes that an address family was decoded from are its
    /// encoding.
    pub proof fn lemma_wire_of_decoded(cursor: usize, bytes: Seq<u8>)
        requires
            bytes.len() <= usize::MAX,
            Identifier::decode(cursor, bytes) is Ok,
        ensures
            cursor + 2 <= bytes.len(),
            Identifier::decode(cursor, bytes).unwrap().0.wire() == Ok::<Seq<u8>, SerializeError>(
                bytes.subrange(cursor as int, cursor + 2),
            ),
    {
        crate::big_endian::lemma_u16_bytes_of(bytes[cursor as int], bytes[cursor + 1]);
        assert(bytes.subrange(cursor as int, cursor + 2) =~= seq![
            bytes[cursor as int],
            bytes[cursor + 1],
        ]);
    }
}

impl Serializable for Identifier {
    open spec fn wire(&self) -> Result<Seq<u8>, SerializeError> {
        match self.number() {
            Some(n) => Ok(u16_bytes(n)),
            None => Err(SerializeError::UnknownAddressFamilyIdentifier),
        }
    }

    fn to_bytes(&self) -> (r: Result<Vec<u8>, SerializeError>) {
        let v = match self.to_u16() {
            Some(v) => v,
            None => {
                return Err(SerializeError::UnknownAddressFamilyIdentifier);
            },
        };
        Ok(split_u16(v))
    }
}

} // verus!
