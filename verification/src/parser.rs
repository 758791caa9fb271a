use crate::packet::{
    assemble, Packet, PacketError, PacketView, VersionedEntry, ENTRY_LENGTH, MAX_ENTRIES,
};
use crate::v1;
use crate::v2;
use crate::version::Version;
use vstd::prelude::*;

verus! {

/// Why a buffer does not decode. An offset is a cursor, the position of the
/// next byte to read, one past the byte that was read last. The one
/// exception is `UnknownAddressFamilyIdentifier`, whose offset is the
/// position of the second of the two bytes that hold the number.
#[derive(Debug, PartialEq, Eq, Structural, Clone, Copy)]
pub enum ParseError {
    InsufficientInputBytesLength(usize),
    UnknownCommandKind(u8, usize),
    UnknownVersion(usize),
    MustBeDiscardedVersion(usize),
    NotZeroByte(u8, usize),
    UnknownAddressFamilyIdentifier(u16, usize),
    EmptyRIPEntry(usize),
    MaxRIPEntriesNumberExceeded(usize),
    InvalidPacket(PacketError),
}

/// A decoded value together with the cursor behind it.
pub type Parsed<T> = (T, usize);

/// A decoder of the entries of one layout.
pub trait PacketParsable<T: VersionedEntry> {
    /// The entry that stands at `cursor`, with the cursor behind it, or the
    /// reason why none stands there.
    spec fn decode_entry(&self, cursor: usize, bytes: Seq<u8>) -> Result<Parsed<T>, ParseError>;

    fn parse_entry(&self, cursor: usize, bytes: &[u8]) -> (r: Result<(T, usize), ParseError>)
        ensures
            r == self.decode_entry(cursor, bytes@),
    ;

    /// The bytes of an entry, wherever they stand in a buffer, decode to it.
    proof fn lemma_decodes_wire(&self, entry: T, cursor: usize, bytes: Seq<u8>)
        requires
            bytes.len() <= usize::MAX,
            cursor + ENTRY_LENGTH <= bytes.len(),
            entry.wire() == Ok::<Seq<u8>, crate::serializer::SerializeError>(
                bytes.subrange(cursor as int, cursor + ENTRY_LENGTH),
            ),
        ensures
            self.decode_entry(cursor, bytes) == Ok::<Parsed<T>, ParseError>(
                (entry, (cursor + ENTRY_LENGTH) as usize),
            ),
    ;

    /// An entry that decodes took `ENTRY_LENGTH` bytes of the buffer, and
    /// these are its encoding.
    proof fn lemma_encodes_decoded(&self, cursor: usize, bytes: Seq<u8>)
        requires
            bytes.len() <= usize::MAX,
            self.decode_entry(cursor, bytes) is Ok,
        ensures
            cursor + ENTRY_LENGTH <= bytes.len(),
            self.decode_entry(cursor, bytes).unwrap().1 == cursor + ENTRY_LENGTH,
            self.decode_entry(cursor, bytes).unwrap().0.wire() == Ok::<
                Seq<u8>,
                crate::serializer::SerializeError,
            >(bytes.subrange(cursor as int, cursor + ENTRY_LENGTH)),
    ;
}

/// A decoded packet, tagged with the version that its header names.
#[derive(Debug)]
pub enum ParsedPacket {
    V1(Packet<v1::Entry>),
    V2(Packet<v2::Entry>),
}

/// What a decoded packet holds.
pub enum ParsedPacketView {
    V1(PacketView<v1::Entry>),
    V2(PacketView<v2::Entry>),
}

impl View for ParsedPacket {
    type V = ParsedPacketView;

    open spec fn view(&self) -> ParsedPacketView {
        match self {
            ParsedPacket::V1(packet) => ParsedPacketView::V1(packet@),
            ParsedPacket::V2(packet) => ParsedPacketView::V2(packet@),
        }
    }
}

/// The entries `first` put before the entries of `rest`, where `rest` has any.
pub open spec fn entries_then<T>(first: Seq<T>, rest: Result<Seq<T>, ParseError>) -> Result<
    Seq<T>,
    ParseError,
> {
    match rest {
        Ok(entries) => Ok(first + entries),
        Err(e) => Err(e),
    }
}

/// The entries from `cursor` to the end of the buffer, where `taken` entries
/// stand before them: one entry after the other until the cursor reaches the
/// end. With `MAX_ENTRIES` entries taken and bytes left, the cursor is
/// reported and no further entry is looked at.
pub open spec fn entries_from<T: VersionedEntry, P: PacketParsable<T>>(
    parser: P,
    cursor: usize,
    bytes: Seq<u8>,
    taken: nat,
) -> Result<Seq<T>, ParseError>
    decreases MAX_ENTRIES - taken,
{
    if taken >= MAX_ENTRIES {
        Err(ParseError::MaxRIPEntriesNumberExceeded(cursor))
    } else {
        match parser.decode_entry(cursor, bytes) {
            Err(e) => Err(e),
            Ok((entry, next)) => if next >= bytes.len() {
                Ok(seq![entry])
            } else {
                entries_then(seq![entry], entries_from(parser, next, bytes, taken + 1))
            },
        }
    }
}

/// The entries of a packet whose header ends at `cursor`. A buffer that
/// holds no byte from `cursor` on has no entry part; with any byte there, an
/// entry is looked for, and what it fails on is reported.
pub open spec fn decode_entries<T: VersionedEntry, P: PacketParsable<T>>(
    parser: P,
    cursor: usize,
    bytes: Seq<u8>,
) -> Result<Seq<T>, ParseError> {
    if cursor >= bytes.len() {
        Err(ParseError::EmptyRIPEntry(cursor))
    } else {
        entries_from(parser, cursor, bytes, 0)
    }
}

/// What a buffer decodes to as a packet of the version `expected`, read with
/// `parser`: the header, which must name that version, then the entries.
pub open spec fn decode_packet_of<T: VersionedEntry, P: PacketParsable<T>>(
    parser: P,
    expected: Version,
    bytes: Seq<u8>,
) -> Result<PacketView<T>, ParseError> {
    match crate::header::decode(0, bytes) {
        Err(e) => Err(e),
        Ok((header, cursor)) => if header.version != expected {
            Err(ParseError::InvalidPacket(PacketError::VersionInHeaderConflicted))
        } else {
            match decode_entries(parser, cursor, bytes) {
                Err(e) => Err(e),
                Ok(entries) => match assemble(header, entries, expected) {
                    Ok(packet) => Ok(packet),
                    Err(e) => Err(ParseError::InvalidPacket(e)),
                },
            }
        },
    }
}

/// What a buffer decodes to as a version 1 packet.
pub open spec fn decode_v1_packet(bytes: Seq<u8>) -> Result<PacketView<v1::Entry>, ParseError> {
    decode_packet_of(v1::EntriesParser {  }, Version::Version1, bytes)
}

/// What a buffer decodes to as a version 2 packet.
pub open spec fn decode_v2_packet(bytes: Seq<u8>) -> Result<PacketView<v2::Entry>, ParseError> {
    decode_packet_of(v2::EntriesParser {  }, Version::Version2, bytes)
}

/// What a buffer decodes to: the header first, then the entries in the
/// layout of the version that the header names. A header of version 0 or of
/// an unknown version is reported with the cursor behind the version byte,
/// and nothing behind the header is looked at.
pub open spec fn decode_packet(bytes: Seq<u8>) -> Result<ParsedPacketView, ParseError> {
    match crate::header::decode(0, bytes) {
        Err(e) => Err(e),
        Ok((header, cursor)) => match header.version {
            Version::Version1 => match decode_v1_packet(bytes) {
                Ok(packet) => Ok(ParsedPacketView::V1(packet)),
                Err(e) => Err(e),
            },
            Version::Version2 => match decode_v2_packet(bytes) {
                Ok(packet) => Ok(ParsedPacketView::V2(packet)),
                Err(e) => Err(e),
            },
            Version::MustBeDiscarded => Err(ParseError::MustBeDiscardedVersion(2)),
            Version::Unknown => Err(ParseError::UnknownVersion(2)),
        },
    }
}

impl ParsedPacketView {
    /// Whether the packet, of whichever version, keeps the rules of a packet
    /// and has at least one entry.
    pub open spec fn well_formed(self) -> bool {
        match self {
            ParsedPacketView::V1(packet) => packet.well_formed() && packet.entries.len() >= 1,
            ParsedPacketView::V2(packet) => packet.well_formed() && packet.entries.len() >= 1,
        }
    }
}

/// The outcome of `parse`, with the packet taken by its view.
pub open spec fn parsed(r: Result<ParsedPacket, ParseError>) -> Result<
    ParsedPacketView,
    ParseError,
> {
    match r {
        Ok(packet) => Ok(packet@),
        Err(e) => Err(e),
    }
}

/// The outcome of `parse_v1` or `parse_v2`, with the packet taken by its view.
pub open spec fn parsed_packet<T: VersionedEntry>(r: Result<Packet<T>, ParseError>) -> Result<
    PacketView<T>,
    ParseError,
> {
    match r {
        Ok(packet) => Ok(packet@),
        Err(e) => Err(e),
    }
}

/// The outcome of `parse_entries`, with the entries taken as a sequence.
pub open spec fn parsed_entries<T>(r: Result<Vec<T>, ParseError>) -> Result<Seq<T>, ParseError> {
    match r {
        Ok(entries) => Ok(entries@),
        Err(e) => Err(e),
    }
}

/// Decodes a packet of either version.
pub fn parse(bytes: &[u8]) -> (r: Result<ParsedPacket, ParseError>)
    ensures
        parsed(r) == decode_packet(bytes@),
        r matches Ok(packet) ==> packet@.well_formed(),
{
    let (header, cursor) = crate::header::parse(0, bytes)?;
    match header.get_version() {
        Version::Version1 => {
            let entries = parse_entries(&v1::EntriesParser {  }, cursor, bytes)?;
            match Packet::make_v1_packet(header, entries) {
                Ok(packet) => Ok(ParsedPacket::V1(packet)),
                Err(e) => Err(ParseError::InvalidPacket(e)),
            }
        },
        Version::Version2 => {
            let entries = parse_entries(&v2::EntriesParser {  }, cursor, bytes)?;
            match Packet::make_v2_packet(header, entries) {
                Ok(packet) => Ok(ParsedPacket::V2(packet)),
                Err(e) => Err(ParseError::InvalidPacket(e)),
            }
        },
        Version::MustBeDiscarded => Err(ParseError::MustBeDiscardedVersion(2)),
        Version::Unknown => Err(ParseError::UnknownVersion(2)),
    }
}

/// Decodes a packet that must be of version 1.
pub fn parse_v1(bytes: &[u8]) -> (r: Result<Packet<v1::Entry>, ParseError>)
    ensures
        parsed_packet(r) == decode_v1_packet(bytes@),
        r matches Ok(packet) ==> packet@.well_formed() && packet@.entries.len() >= 1,
{
    let (header, cursor) = crate::header::parse(0, bytes)?;
    if header.get_version() != Version::Version1 {
        return Err(ParseError::InvalidPacket(PacketError::VersionInHeaderConflicted));
    }
    let entries = parse_entries(&v1::EntriesParser {  }, cursor, bytes)?;
    match Packet::make_v1_packet(header, entries) {
        Ok(packet) => Ok(packet),
        Err(e) => Err(ParseError::InvalidPacket(e)),
    }
}

/// Decodes a packet that must be of version 2.
pub fn parse_v2(bytes: &[u8]) -> (r: Result<Packet<v2::Entry>, ParseError>)
    ensures
        parsed_packet(r) == decode_v2_packet(bytes@),
        r matches Ok(packet) ==> packet@.well_formed() && packet@.entries.len() >= 1,
{
    let (header, cursor) = crate::header::parse(0, bytes)?;
    if header.get_version() != Version::Version2 {
        return Err(ParseError::InvalidPacket(PacketError::VersionInHeaderConflicted));
    }
    let entries = parse_entries(&v2::EntriesParser {  }, cursor, bytes)?;
    match Packet::make_v2_packet(header, entries) {
        Ok(packet) => Ok(packet),
        Err(e) => Err(ParseError::InvalidPacket(e)),
    }
}

/// Decodes the entries behind a header that ends at `cursor`.
pub fn parse_entries<T: VersionedEntry, P: PacketParsable<T>>(
    parser: &P,
    cursor: usize,
    bytes: &[u8],
) -> (r: Result<Vec<T>, ParseError>)
    ensures
        parsed_entries(r) == decode_entries(*parser, cursor, bytes@),
        r matches Ok(entries) ==> 1 <= entries@.len() <= MAX_ENTRIES,
{
    let mut entries: Vec<T> = Vec::new();
    if cursor >= bytes.len() {
        return Err(ParseError::EmptyRIPEntry(cursor));
    }
    let mut at: usize = cursor;
    loop
        invariant_except_break
            entries@.len() <= MAX_ENTRIES,
            entries_from(*parser, cursor, bytes@, 0) == entries_then(
                entries@,
                entries_from(*parser, at, bytes@, entries@.len()),
            ),
        invariant
            cursor < bytes@.len(),
        ensures
            parsed_entries(Ok::<Vec<T>, ParseError>(entries)) == entries_from(
                *parser,
                cursor,
                bytes@,
                0,
            ),
            1 <= entries@.len() <= MAX_ENTRIES,
        decreases MAX_ENTRIES - entries@.len(),
    {
        if entries.len() >= MAX_ENTRIES {
            return Err(ParseError::MaxRIPEntriesNumberExceeded(at));
        }
        let ghost before = entries@;
        let (entry, next) = match parser.parse_entry(at, bytes) {
            Ok(result) => result,
            Err(e) => {
                return Err(e);
            },
        };
        entries.push(entry);
        proof {
            assert(entries@ =~= before + seq![entry]);
            match entries_from(*parser, next, bytes@, entries@.len()) {
                Ok(rest) => {
                    assert(before + (seq![entry] + rest) =~= entries@ + rest);
                },
                Err(_) => {},
            }
        }
        at = next;
        if at >= bytes.len() {
            break ;
        }
    }
    Ok(entries)
}

} // verus!
