use crate::byte_reader::read;
use crate::parser::{ParseError, Parsed};
use crate::serializer::{Serializable, SerializeError};
use vstd::prelude::*;

verus! {

/// The command carried in the first byte of a packet.
#[derive(PartialEq, Eq, Structural, Copy, Clone, Debug)]
pub enum Kind {
    Invalid,
    Request,
    Response,
    TraceOn,
    TraceOff,
    Reserved,
    TriggeredRequest,
    TriggeredResponse,
    TriggeredAcknowledgement,
    UpdateRequest,
    UpdateResponse,
    UpdateAcknowledge,
    Unknown,
}

impl Kind {
    /// The command that a byte stands for.
    pub open spec fn of_byte(value: u8) -> Kind {
        match value {
            0 => Kind::Invalid,
            1 => Kind::Request,
            2 => Kind::Response,
            3 => Kind::TraceOn,
            4 => Kind::TraceOff,
            5 => Kind::Reserved,
            6 => Kind::TriggeredRequest,
            7 => Kind::TriggeredResponse,
            8 => Kind::TriggeredAcknowledgement,
            9 => Kind::UpdateRequest,
            10 => Kind::UpdateResponse,
            11 => Kind::UpdateAcknowledge,
            _ => Kind::Unknown,
        }
    }

    /// The byte that stands for a command; `Unknown` has none.
    pub open spec fn byte(self) -> Option<u8> {
        match self {
            Kind::Invalid => Some(0u8),
            Kind::Request => Some(1u8),
            Kind::Response => Some(2u8),
            Kind::TraceOn => Some(3u8),
            Kind::TraceOff => Some(4u8),
            Kind::Reserved => Some(5u8),
            Kind::TriggeredRequest => Some(6u8),
            Kind::TriggeredResponse => Some(7u8),
            Kind::TriggeredAcknowledgement => Some(8u8),
            Kind::UpdateRequest => Some(9u8),
            Kind::UpdateResponse => Some(10u8),
            Kind::UpdateAcknowledge => Some(11u8),
            Kind::Unknown => None,
        }
    }

    /// The command in the byte at `cursor`, with the cursor behind it. A byte
    /// that names no command is reported with the cursor behind it.
    pub open spec fn decode(cursor: usize, bytes: Seq<u8>) -> Result<Parsed<Kind>, ParseError> {
        if cursor < bytes.len() {
            let value = bytes[cursor as int];
            if Kind::of_byte(value) == Kind::Unknown {
                Err(ParseError::UnknownCommandKind(value, (cursor + 1) as usize))
            } else {
                Ok((Kind::of_byte(value), (cursor + 1) as usize))
            }
        } else {
            Err(ParseError::InsufficientInputBytesLength(cursor))
        }
    }

    pub fn from_u8(value: u8) -> (kind: Kind)
        ensures
            kind == Kind::of_byte(value),
    {
        match value {
            0 => Kind::Invalid,
            1 => Kind::Request,
            2 => Kind::Response,
            3 => Kind::TraceOn,
            4 => Kind::TraceOff,
            5 => Kind::Reserved,
            6 => Kind::TriggeredRequest,
            7 => Kind::TriggeredResponse,
            8 => Kind::TriggeredAcknowledgement,
            9 => Kind::UpdateRequest,
            10 => Kind::UpdateResponse,
            11 => Kind::UpdateAcknowledge,
            _ => Kind::Unknown,
        }
    }

    pub fn to_u8(&self) -> (b: Option<u8>)
        ensures
            b == self.byte(),
    {
        match self {
            Kind::Invalid => Some(0),
            Kind::Request => Some(1),
            Kind::Response => Some(2),
            Kind::TraceOn => Some(3),
            Kind::TraceOff => Some(4),
            Kind::Reserved => Some(5),
            Kind::TriggeredRequest => Some(6),
            Kind::TriggeredResponse => Some(7),
            Kind::TriggeredAcknowledgement => Some(8),
            Kind::UpdateRequest => Some(9),
            Kind::UpdateResponse => Some(10),
            Kind::UpdateAcknowledge => Some(11),
            Kind::Unknown => None,
        }
    }

    pub fn parse(cursor: usize, bytes: &[u8]) -> (r: Result<Parsed<Kind>, ParseError>)
        ensures
            r == Kind::decode(cursor, bytes@),
            r matches Ok((kind, next)) ==> next == cursor + 1 && kind != Kind::Unknown,
    {
        let (command_byte, cursor) = read(cursor, bytes)?;
        let command = match Kind::from_u8(command_byte) {
            Kind::Unknown => {
                return Err(ParseError::UnknownCommandKind(command_byte, cursor));
            },
            command => command,
        };
        Ok((command, cursor))
    }

    /// Every command but `Unknown` comes back from its own byte.
    pub proof fn lemma_byte_round_trip(kind: Kind)
        requires
            kind != Kind::Unknown,
        ensures
            kind.byte() is Some,
            Kind::of_byte(kind.byte().unwrap()) == kind,
    {
    }

    /// A byte that names a command is the byte of that command.
    pub proof fn lemma_of_byte_round_trip(value: u8)
        requires
            Kind::of_byte(value) != Kind::Unknown,
        ensures
            Kind::of_byte(value).byte() == Some(value),
    {
    }

    /// The byte of a command, wherever it stands in a buffer, decodes to it.
    pub proof fn lemma_round_trip(kind: Kind, cursor: usize, bytes: Seq<u8>)
        requires
            bytes.len() <= usize::MAX,
            cursor < bytes.len(),
            kind.wire() == Ok::<Seq<u8>, SerializeError>(seq![bytes[cursor as int]]),
        ensures
            Kind::decode(cursor, bytes) == Ok::<Parsed<Kind>, ParseError>(
                (kind, (cursor + 1) as usize),
            ),
    {
        assert(seq![kind.byte().unwrap()][0] == seq![bytes[cursor as int]][0]);
    }

    /// The byte that a command was decoded from is its encoding.
    pub proof fn lemma_wire_of_decoded(cursor: usize, bytes: Seq<u8>)
        requires
            bytes.len() <= usize::MAX,
            Kind::decode(cursor, bytes) is Ok,
        ensures
            cursor < bytes.len(),
            Kind::decode(cursor, bytes).unwrap().0.wire() == Ok::<Seq<u8>, SerializeError>(
                seq![bytes[cursor as int]],
            ),
    {
    }
}

impl Serializable for Kind {
    open spec fn wire(&self) -> Result<Seq<u8>, SerializeError> {
        match self.byte() {
            Some(b) => Ok(seq![b]),
            None => Err(SerializeError::UnknownCommandKind),
        }
    }

    fn to_bytes(&self) -> (r: Result<Vec<u8>, SerializeError>) {
        match self.to_u8() {
            Some(byte) => {
                let mut out: Vec<u8> = Vec::new();
                out.push(byte);
                assert(out@ =~= seq![byte]);
                Ok(out)
            },
            None => Err(SerializeError::UnknownCommandKind),
        }
    }
}

} // verus!
