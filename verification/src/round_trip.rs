use crate::header::Header;
use crate::packet::{
    entries_wire, lemma_entries_wire_length, PacketView, VersionedEntry, ENTRY_LENGTH, MAX_ENTRIES,
};
use crate::parser::{
    decode_entries, decode_packet, decode_packet_of, decode_v1_packet, decode_v2_packet,
    entries_from, PacketParsable, ParseError, ParsedPacketView,
};
use crate::serializer::{Serializable, SerializeError};
use crate::v1;
use crate::v2;
use crate::version::Version;
use vstd::prelude::*;

verus! {

/// Where the rest of a buffer is the encoding of at least one entry, and the
/// entries fit under the cap together with those taken before, the entry
/// loop gives back these entries.
pub proof fn lemma_entries_round_trip<T: VersionedEntry, P: PacketParsable<T>>(
    parser: P,
    entries: Seq<T>,
    cursor: usize,
    bytes: Seq<u8>,
    taken: nat,
)
    requires
        bytes.len() <= usize::MAX,
        entries.len() >= 1,
        taken + entries.len() <= MAX_ENTRIES,
        cursor <= bytes.len(),
        entries_wire(entries) == Ok::<Seq<u8>, SerializeError>(bytes.skip(cursor as int)),
    ensures
        entries_from(parser, cursor, bytes, taken) == Ok::<Seq<T>, ParseError>(entries),
    decreases entries.len(),
{
    let first = entries[0];
    let others = entries.drop_first();
    first.lemma_wire_length();
    lemma_entries_wire_length(others);
    let head = first.wire().unwrap();
    let tail = entries_wire(others).unwrap();
    assert(bytes.skip(cursor as int) == head + tail);
    assert(bytes.len() - cursor == head.len() + tail.len());
    assert(bytes.subrange(cursor as int, cursor + ENTRY_LENGTH) =~= head) by {
        assert forall|i: int| 0 <= i < ENTRY_LENGTH implies bytes.subrange(
            cursor as int,
            cursor + ENTRY_LENGTH,
        )[i] == head[i] by {
            assert(bytes.skip(cursor as int)[i] == (head + tail)[i]);
        }
    }
    parser.lemma_decodes_wire(first, cursor, bytes);
    if entries.len() == 1 {
        assert(others.len() == 0);
        assert(seq![first] =~= entries);
    } else {
        let next = (cursor + ENTRY_LENGTH) as usize;
        assert(bytes.skip(next as int) =~= tail) by {
            assert forall|i: int| 0 <= i < tail.len() implies bytes.skip(next as int)[i]
                == tail[i] by {
                assert(bytes.skip(cursor as int)[i + ENTRY_LENGTH] == (head + tail)[i
                    + ENTRY_LENGTH]);
            }
        }
        lemma_entries_round_trip(parser, others, next, bytes, taken + 1);
        assert(seq![first] + others =~= entries);
    }
}

/// The encoding of a well-formed packet with at least one entry decodes,
/// with a decoder that reads back what its entries encode to, to the packet.
pub proof fn lemma_packet_round_trip<T: VersionedEntry, P: PacketParsable<T>>(
    parser: P,
    packet: PacketView<T>,
    bytes: Seq<u8>,
)
    requires
        packet.well_formed(),
        packet.entries.len() >= 1,
        packet.wire() == Ok::<Seq<u8>, SerializeError>(bytes),
    ensures
        bytes.len() == 4 + ENTRY_LENGTH * packet.entries.len(),
        crate::header::decode(0, bytes) == Ok::<(Header, usize), ParseError>((packet.header, 4)),
        decode_entries(parser, 4, bytes) == Ok::<Seq<T>, ParseError>(packet.entries),
        decode_packet_of(parser, T::protocol_version(), bytes) == Ok::<PacketView<T>, ParseError>(
            packet,
        ),
{
    crate::packet::lemma_wire_length(packet);
    let head = packet.header.wire().unwrap();
    let body = entries_wire(packet.entries).unwrap();
    assert(bytes == head + body);
    assert(head.len() == 4) by {
        assert(packet.header.command.wire().unwrap().len() == 1);
        assert(packet.header.version.wire().unwrap().len() == 1);
    }
    assert(bytes.subrange(0, 4) =~= head);
    crate::header::lemma_round_trip(packet.header, 0, bytes);
    assert(bytes.skip(4) =~= body);
    lemma_entries_round_trip(parser, packet.entries, 4, bytes, 0);
}

/// Encoding a well-formed version 1 packet with at least one entry and
/// decoding the bytes gives the packet back, tagged as version 1.
pub proof fn lemma_v1_round_trip(packet: PacketView<v1::Entry>, bytes: Seq<u8>)
    requires
        packet.well_formed(),
        packet.entries.len() >= 1,
        packet.wire() == Ok::<Seq<u8>, SerializeError>(bytes),
    ensures
        decode_packet(bytes) == Ok::<ParsedPacketView, ParseError>(ParsedPacketView::V1(packet)),
        decode_v1_packet(bytes) == Ok::<PacketView<v1::Entry>, ParseError>(packet),
{
    lemma_packet_round_trip(v1::EntriesParser {  }, packet, bytes);
}

/// Encoding a well-formed version 2 packet with at least one entry and
/// decoding the bytes gives the packet back, tagged as version 2.
pub proof fn lemma_v2_round_trip(packet: PacketView<v2::Entry>, bytes: Seq<u8>)
    requires
        packet.well_formed(),
        packet.entries.len() >= 1,
        packet.wire() == Ok::<Seq<u8>, SerializeError>(bytes),
    ensures
        decode_packet(bytes) == Ok::<ParsedPacketView, ParseError>(ParsedPacketView::V2(packet)),
        decode_v2_packet(bytes) == Ok::<PacketView<v2::Entry>, ParseError>(packet),
{
    lemma_packet_round_trip(v2::EntriesParser {  }, packet, bytes);
}

/// A packet without entries has an encoding of four bytes, and these do not
/// decode: the buffer has no entry part.
pub proof fn lemma_no_entries_no_round_trip<T: VersionedEntry, P: PacketParsable<T>>(
    parser: P,
    packet: PacketView<T>,
    bytes: Seq<u8>,
)
    requires
        packet.well_formed(),
        packet.entries.len() == 0,
        packet.wire() == Ok::<Seq<u8>, SerializeError>(bytes),
    ensures
        decode_packet_of(parser, T::protocol_version(), bytes) == Err::<
            PacketView<T>,
            ParseError,
        >(ParseError::EmptyRIPEntry(4)),
{
    crate::packet::lemma_wire_length(packet);
    let head = packet.header.wire().unwrap();
    assert(bytes =~= head);
    assert(bytes.subrange(0, 4) =~= head);
    crate::header::lemma_round_trip(packet.header, 0, bytes);
}

/// The entries that the entry loop gives are at least one and, with those
/// taken before, at most `MAX_ENTRIES`; they use up the buffer to its last
/// byte, and the bytes from `cursor` on are their encoding.
pub proof fn lemma_entries_wire_of_decoded<T: VersionedEntry, P: PacketParsable<T>>(
    parser: P,
    cursor: usize,
    bytes: Seq<u8>,
    taken: nat,
)
    requires
        bytes.len() <= usize::MAX,
        entries_from(parser, cursor, bytes, taken) is Ok,
    ensures
        1 <= entries_from(parser, cursor, bytes, taken).unwrap().len(),
        taken + entries_from(parser, cursor, bytes, taken).unwrap().len() <= MAX_ENTRIES,
        cursor + ENTRY_LENGTH * entries_from(parser, cursor, bytes, taken).unwrap().len()
            == bytes.len(),
        entries_wire(entries_from(parser, cursor, bytes, taken).unwrap()) == Ok::<
            Seq<u8>,
            SerializeError,
        >(bytes.skip(cursor as int)),
    decreases MAX_ENTRIES - taken,
{
    parser.lemma_encodes_decoded(cursor, bytes);
    let (entry, next) = parser.decode_entry(cursor, bytes).unwrap();
    let head = bytes.subrange(cursor as int, cursor + ENTRY_LENGTH);
    let entries = entries_from(parser, cursor, bytes, taken).unwrap();
    if next >= bytes.len() {
        assert(entries == seq![entry]);
        assert(entries.drop_first() =~= Seq::<T>::empty());
        assert(entries_wire(entries.drop_first()) == Ok::<Seq<u8>, SerializeError>(Seq::empty()));
        assert(head + Seq::<u8>::empty() =~= bytes.skip(cursor as int));
    } else {
        lemma_entries_wire_of_decoded(parser, next, bytes, taken + 1);
        let rest = entries_from(parser, next, bytes, taken + 1).unwrap();
        assert(entries == seq![entry] + rest);
        assert(entries.len() == 1 + rest.len());
        assert(entries[0] == entry);
        assert(entries.drop_first() =~= rest);
        assert(head + bytes.skip(next as int) =~= bytes.skip(cursor as int));
        assert(ENTRY_LENGTH * entries.len() == ENTRY_LENGTH + ENTRY_LENGTH * rest.len());
    }
}

/// A packet that a buffer decodes to keeps the rules of a packet, has at
/// least one entry, and has the buffer as its encoding.
pub proof fn lemma_packet_wire_of_decoded<T: VersionedEntry, P: PacketParsable<T>>(
    parser: P,
    bytes: Seq<u8>,
)
    requires
        bytes.len() <= usize::MAX,
        T::protocol_version() != Version::Unknown,
        decode_packet_of(parser, T::protocol_version(), bytes) is Ok,
    ensures
        decode_packet_of(parser, T::protocol_version(), bytes).unwrap().well_formed(),
        decode_packet_of(parser, T::protocol_version(), bytes).unwrap().entries.len() >= 1,
        decode_packet_of(parser, T::protocol_version(), bytes).unwrap().wire() == Ok::<
            Seq<u8>,
            SerializeError,
        >(bytes),
{
    crate::header::lemma_decode_ok(0, bytes);
    crate::header::lemma_wire_of_decoded(0, bytes);
    lemma_entries_wire_of_decoded(parser, 4, bytes, 0);
    assert(bytes.subrange(0, 4) + bytes.skip(4) =~= bytes);
}

/// Whatever a buffer decodes to keeps the rules of a packet, has at least
/// one entry, and encodes to the very bytes of the buffer: decoding and
/// encoding undo each other on every buffer that decodes.
pub proof fn lemma_wire_of_decoded(bytes: Seq<u8>)
    requires
        bytes.len() <= usize::MAX,
        decode_packet(bytes) is Ok,
    ensures
        match decode_packet(bytes).unwrap() {
            ParsedPacketView::V1(packet) => {
                &&& packet.well_formed()
                &&& packet.entries.len() >= 1
                &&& packet.wire() == Ok::<Seq<u8>, SerializeError>(bytes)
                &&& decode_v1_packet(bytes) == Ok::<PacketView<v1::Entry>, ParseError>(packet)
            },
            ParsedPacketView::V2(packet) => {
                &&& packet.well_formed()
                &&& packet.entries.len() >= 1
                &&& packet.wire() == Ok::<Seq<u8>, SerializeError>(bytes)
                &&& decode_v2_packet(bytes) == Ok::<PacketView<v2::Entry>, ParseError>(packet)
            },
        },
{
    match decode_packet(bytes).unwrap() {
        ParsedPacketView::V1(_) => {
            lemma_packet_wire_of_decoded(v1::EntriesParser {  }, bytes);
        },
        ParsedPacketView::V2(_) => {
            lemma_packet_wire_of_decoded(v2::EntriesParser {  }, bytes);
        },
    }
}

/// A buffer that decodes holds four bytes and twenty more for each of one
/// to `MAX_ENTRIES` entries.
pub proof fn lemma_decoded_length(bytes: Seq<u8>)
    requires
        bytes.len() <= usize::MAX,
        decode_packet(bytes) is Ok,
    ensures
        24 <= bytes.len() <= 504,
        (bytes.len() - 4) % 20 == 0,
{
    lemma_wire_of_decoded(bytes);
    match decode_packet(bytes).unwrap() {
        ParsedPacketView::V1(packet) => {
            crate::packet::lemma_wire_length(packet);
        },
        ParsedPacketView::V2(packet) => {
            crate::packet::lemma_wire_length(packet);
        },
    }
}

} // verus!
