use crate::byte_reader::{byte_at, read};
use crate::command::Kind;
use crate::parser::{ParseError, Parsed};
use crate::serializer::{Serializable, SerializeError};
use crate::version::Version;
use crate::zero_bytes::{lemma_zeros_ok, skip, zeros_from};
use vstd::prelude::*;

verus! {

/// The four-byte prefix of a packet: command, version, two reserved bytes.
/// The reserved bytes are read and written, and not kept.
#[derive(PartialEq, Eq, Structural, Debug)]
pub struct Header {
    pub command: Kind,
    pub version: Version,
}

/// The header in the four bytes at `cursor`, with the cursor behind them.
/// Any version byte is taken, also one that names no version.
pub open spec fn decode(cursor: usize, bytes: Seq<u8>) -> Result<Parsed<Header>, ParseError> {
    match Kind::decode(cursor, bytes) {
        Err(e) => Err(e),
        Ok((command, at_version)) => match byte_at(at_version, bytes) {
            Err(e) => Err(e),
            Ok((version_byte, at_reserved)) => match zeros_from(2, at_reserved, bytes) {
                Err(e) => Err(e),
                Ok(next) => Ok((Header { command, version: Version::of_byte(version_byte) }, next)),
            },
        },
    }
}

pub fn parse(cursor: usize, bytes: &[u8]) -> (r: Result<Parsed<Header>, ParseError>)
    ensures
        r == decode(cursor, bytes@),
        r matches Ok((header, next)) ==> next == cursor + 4 && header.command != Kind::Unknown,
{
    let (command, cursor) = Kind::parse(cursor, bytes)?;
    let (version_byte, cursor) = read(cursor, bytes)?;
    let version_value = Version::from_u8(version_byte);
    let cursor = skip(2, cursor, bytes)?;
    let header = Header::new(command, version_value);
    Ok((header, cursor))
}

impl Header {
    pub fn new(command: Kind, version: Version) -> (header: Header)
        ensures
            header == (Header { command, version }),
    {
        Header { command, version }
    }

    pub fn get_command(&self) -> (command: Kind)
        ensures
            command == self.command,
    {
        self.command
    }

    pub fn get_version(&self) -> (version: Version)
        ensures
            version == self.version,
    {
        self.version
    }
}

impl Serializable for Header {
    /// The command's byte, the version's byte, and two zero bytes. A command
    /// without a byte is reported before a version without one.
    open spec fn wire(&self) -> Result<Seq<u8>, SerializeError> {
        match self.command.wire() {
            Err(e) => Err(e),
            Ok(command_bytes) => match self.version.wire() {
                Err(e) => Err(e),
                Ok(version_bytes) => Ok(command_bytes + version_bytes + seq![0u8, 0u8]),
            },
        }
    }

    fn to_bytes(&self) -> (r: Result<Vec<u8>, SerializeError>) {
        let mut bytes = self.get_command().to_bytes()?;
        let mut version_bytes = self.get_version().to_bytes()?;
        let ghost command_bytes = bytes@;
        let ghost version_seq = version_bytes@;
        bytes.append(&mut version_bytes);
        bytes.push(0);
        bytes.push(0);
        assert(bytes@ =~= command_bytes + version_seq + seq![0u8, 0u8]);
        Ok(bytes)
    }
}

/// A header that decodes has a command, stands whole in the buffer, and has
/// its two reserved bytes at zero.
pub proof fn lemma_decode_ok(cursor: usize, bytes: Seq<u8>)
    requires
        bytes.len() <= usize::MAX,
        decode(cursor, bytes) is Ok,
    ensures
        cursor + 4 <= bytes.len(),
        bytes[cursor + 2] == 0,
        bytes[cursor + 3] == 0,
        decode(cursor, bytes) == Ok::<Parsed<Header>, ParseError>(
            (
                Header {
                    command: Kind::of_byte(bytes[cursor as int]),
                    version: Version::of_byte(bytes[cursor + 1]),
                },
                (cursor + 4) as usize,
            ),
        ),
        Kind::of_byte(bytes[cursor as int]) != Kind::Unknown,
{
    lemma_zeros_ok(2, (cursor + 2) as usize, bytes);
}

/// The bytes of a header, wherever they stand in a buffer, decode to it.
pub proof fn lemma_round_trip(header: Header, cursor: usize, bytes: Seq<u8>)
    requires
        bytes.len() <= usize::MAX,
        cursor + 4 <= bytes.len(),
        header.wire() == Ok::<Seq<u8>, SerializeError>(bytes.subrange(cursor as int, cursor + 4)),
    ensures
        decode(cursor, bytes) == Ok::<Parsed<Header>, ParseError>(
            (header, (cursor + 4) as usize),
        ),
{
    let part = bytes.subrange(cursor as int, cursor + 4);
    let command_byte = header.command.byte().unwrap();
    let version_byte = header.version.byte().unwrap();
    assert(part == seq![command_byte] + seq![version_byte] + seq![0u8, 0u8]);
    assert(part[0] == command_byte && part[1] == version_byte && part[2] == 0 && part[3] == 0);
    assert(part[0] == bytes[cursor as int] && part[1] == bytes[cursor + 1] && part[2]
        == bytes[cursor + 2] && part[3] == bytes[cursor + 3]);
    lemma_zeros_ok(2, (cursor + 2) as usize, bytes);
}

/// The four bytes that a header was decoded from are its encoding, where
/// the version byte names a version.
pub proof fn lemma_wire_of_decoded(cursor: usize, bytes: Seq<u8>)
    requires
        bytes.len() <= usize::MAX,
        decode(cursor, bytes) is Ok,
        decode(cursor, bytes).unwrap().0.version != Version::Unknown,
    ensures
        cursor + 4 <= bytes.len(),
        decode(cursor, bytes).unwrap().0.wire() == Ok::<Seq<u8>, SerializeError>(
            bytes.subrange(cursor as int, cursor + 4),
        ),
{
    lemma_decode_ok(cursor, bytes);
    let header = decode(cursor, bytes).unwrap().0;
    assert(header.wire().unwrap() =~= bytes.subrange(cursor as int, cursor + 4));
}

} // verus!
