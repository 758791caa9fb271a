use crate::address_family::Identifier;
use crate::big_endian::u32_bytes;
use crate::ipv4::Ipv4Addr;
use crate::metric::Metric;
use crate::packet::VersionedEntry;
use crate::parser::{PacketParsable, ParseError, Parsed};
use crate::serializer::{Serializable, SerializeError};
use crate::version::Version;
use crate::zero_bytes::{lemma_zeros_any_violation, lemma_zeros_ok, skip, zeros_from};
use vstd::prelude::*;

verus! {

/// One route of a version 1 packet.
#[derive(PartialEq, Eq, Structural, Debug)]
pub struct Entry {
    pub address_family_identifier: Identifier,
    pub ip_address: Ipv4Addr,
    pub metric: Metric,
}

impl Entry {
    pub fn new(address_family_identifier: Identifier, ip_address: Ipv4Addr, metric: Metric) -> (entry:
        Entry)
        ensures
            entry == (Entry { address_family_identifier, ip_address, metric }),
    {
        Entry { address_family_identifier, ip_address, metric }
    }

    pub fn get_address_family_identifier(&self) -> (identifier: Identifier)
        ensures
            identifier == self.address_family_identifier,
    {
        self.address_family_identifier
    }

    pub fn get_ip_address(&self) -> (addr: Ipv4Addr)
        ensures
            addr == self.ip_address,
    {
        self.ip_address
    }

    pub fn get_metric(&self) -> (metric: Metric)
        ensures
            metric == self.metric,
    {
        self.metric
    }
}

impl Serializable for Entry {
    /// Address family, two zero bytes, address, eight zero bytes, metric.
    open spec fn wire(&self) -> Result<Seq<u8>, SerializeError> {
        match self.address_family_identifier.wire() {
            Err(e) => Err(e),
            Ok(family) => Ok(
                family + seq![0u8, 0u8] + self.ip_address.octet_seq() + seq![
                    0u8,
                    0u8,
                    0u8,
                    0u8,
                    0u8,
                    0u8,
                    0u8,
                    0u8,
                ] + u32_bytes(self.metric),
            ),
        }
    }

    fn to_bytes(&self) -> (r: Result<Vec<u8>, SerializeError>) {
        let mut bytes = self.get_address_family_identifier().to_bytes()?;
        let ghost family = bytes@;
        bytes.push(0);
        bytes.push(0);
        let mut address = crate::ipv4::to_bytes(self.get_ip_address())?;
        bytes.append(&mut address);
        let mut filled: usize = 0;
        while filled < 8
            invariant
                filled <= 8,
                bytes@ == family + seq![0u8, 0u8] + self.ip_address.octet_seq() + Seq::new(
                    filled as nat,
                    |i: int| 0u8,
                ),
            decreases 8 - filled,
        {
            bytes.push(0);
            filled = filled + 1;
        }
        let mut metric = crate::metric::to_bytes(self.get_metric())?;
        bytes.append(&mut metric);
        assert(bytes@ =~= family + seq![0u8, 0u8] + self.ip_address.octet_seq() + seq![
            0u8,
            0u8,
            0u8,
            0u8,
            0u8,
            0u8,
            0u8,
            0u8,
        ] + u32_bytes(self.metric));
        Ok(bytes)
    }
}

impl VersionedEntry for Entry {
    open spec fn protocol_version() -> Version {
        Version::Version1
    }

    proof fn lemma_wire_length(&self) {
    }
}

/// The entry in the twenty bytes at `cursor`, with the cursor behind them:
/// address family, two reserved bytes, address, eight reserved bytes, metric.
/// The fields are taken in this order, and the first that fails is reported.
pub open spec fn decode(cursor: usize, bytes: Seq<u8>) -> Result<Parsed<Entry>, ParseError> {
    match Identifier::decode(cursor, bytes) {
        Err(e) => Err(e),
        Ok((address_family_identifier, at_first_gap)) => match zeros_from(2, at_first_gap, bytes) {
            Err(e) => Err(e),
            Ok(at_address) => match crate::ipv4::decode(at_address, bytes) {
                Err(e) => Err(e),
                Ok((ip_address, at_second_gap)) => match zeros_from(8, at_second_gap, bytes) {
                    Err(e) => Err(e),
                    Ok(at_metric) => match crate::metric::decode(at_metric, bytes) {
                        Err(e) => Err(e),
                        Ok((metric, next)) => Ok(
                            (Entry { address_family_identifier, ip_address, metric }, next),
                        ),
                    },
                },
            },
        }
    }
}

/// Whether the byte at `offset` from the start of an entry is reserved.
pub open spec fn is_reserved(offset: int) -> bool {
    2 <= offset < 4 || 8 <= offset < 16
}

/// An entry that decodes stands whole in the buffer, with every reserved
/// byte at zero, and the cursor ends twenty bytes on.
pub proof fn lemma_decode_ok(cursor: usize, bytes: Seq<u8>)
    requires
        bytes.len() <= usize::MAX,
        decode(cursor, bytes) is Ok,
    ensures
        cursor + 20 <= bytes.len(),
        decode(cursor, bytes).unwrap().1 == cursor + 20,
        forall|i: int| cursor <= i < cursor + 20 && is_reserved(i - cursor) ==> bytes[i] == 0,
{
    lemma_zeros_ok(2, (cursor + 2) as usize, bytes);
    lemma_zeros_ok(8, (cursor + 8) as usize, bytes);
}

/// The bytes of an entry, wherever they stand in a buffer, decode to it.
pub proof fn lemma_round_trip(entry: Entry, cursor: usize, bytes: Seq<u8>)
    requires
        bytes.len() <= usize::MAX,
        cursor + 20 <= bytes.len(),
        entry.wire() == Ok::<Seq<u8>, SerializeError>(bytes.subrange(cursor as int, cursor + 20)),
    ensures
        decode(cursor, bytes) == Ok::<Parsed<Entry>, ParseError>((entry, (cursor + 20) as usize)),
{
    let part = bytes.subrange(cursor as int, cursor + 20);
    let family = entry.address_family_identifier.wire().unwrap();
    let address = entry.ip_address.octet_seq();
    let metric = u32_bytes(entry.metric);
    let gap = seq![0u8, 0u8, 0u8, 0u8, 0u8, 0u8, 0u8, 0u8];
    assert(part == family + seq![0u8, 0u8] + address + gap + metric);
    assert(family.len() == 2 && address.len() == 4 && gap.len() == 8 && metric.len() == 4);
    assert forall|i: int| 0 <= i < 20 implies part[i] == bytes[cursor + i] by {}
    assert(bytes.subrange(cursor as int, cursor + 2) =~= family) by {
        assert forall|i: int| 0 <= i < 2 implies bytes.subrange(cursor as int, cursor + 2)[i]
            == family[i] by {
            assert(part[i] == family[i]);
        }
    }
    Identifier::lemma_round_trip(entry.address_family_identifier, cursor, bytes);
    assert forall|i: int| cursor + 2 <= i < cursor + 4 implies bytes[i] == 0 by {
        assert(part[i - cursor] == seq![0u8, 0u8][i - cursor - 2]);
    }
    lemma_zeros_ok(2, (cursor + 2) as usize, bytes);
    assert(bytes.subrange(cursor + 4, cursor + 8) =~= address) by {
        assert forall|i: int| 0 <= i < 4 implies bytes.subrange(cursor + 4, cursor + 8)[i]
            == address[i] by {
            assert(part[i + 4] == address[i]);
        }
    }
    crate::ipv4::lemma_round_trip(entry.ip_address, (cursor + 4) as usize, bytes);
    assert forall|i: int| cursor + 8 <= i < cursor + 16 implies bytes[i] == 0 by {
        assert(part[i - cursor] == gap[i - cursor - 8]);
    }
    lemma_zeros_ok(8, (cursor + 8) as usize, bytes);
    assert(bytes.subrange(cursor + 16, cursor + 20) =~= metric) by {
        assert forall|i: int| 0 <= i < 4 implies bytes.subrange(cursor + 16, cursor + 20)[i]
            == metric[i] by {
            assert(part[i + 16] == metric[i]);
        }
    }
    crate::metric::lemma_round_trip(entry.metric, (cursor + 16) as usize, bytes);
}

/// The twenty bytes that an entry was decoded from are its encoding.
pub proof fn lemma_wire_of_decoded(cursor: usize, bytes: Seq<u8>)
    requires
        bytes.len() <= usize::MAX,
        decode(cursor, bytes) is Ok,
    ensures
        cursor + 20 <= bytes.len(),
        decode(cursor, bytes).unwrap().1 == cursor + 20,
        decode(cursor, bytes).unwrap().0.wire() == Ok::<Seq<u8>, SerializeError>(
            bytes.subrange(cursor as int, cursor + 20),
        ),
{
    lemma_decode_ok(cursor, bytes);
    lemma_zeros_ok(2, (cursor + 2) as usize, bytes);
    lemma_zeros_ok(8, (cursor + 8) as usize, bytes);
    Identifier::lemma_wire_of_decoded(cursor, bytes);
    crate::ipv4::lemma_wire_of_decoded((cursor + 4) as usize, bytes);
    crate::metric::lemma_wire_of_decoded((cursor + 16) as usize, bytes);
    let entry = decode(cursor, bytes).unwrap().0;
    let part = bytes.subrange(cursor as int, cursor + 20);
    let family = entry.address_family_identifier.wire().unwrap();
    let address = entry.ip_address.octet_seq();
    let gap = seq![0u8, 0u8, 0u8, 0u8, 0u8, 0u8, 0u8, 0u8];
    let metric = u32_bytes(entry.metric);
    let made = family + seq![0u8, 0u8] + address + gap + metric;
    assert(family.len() == 2 && address.len() == 4 && gap.len() == 8 && metric.len() == 4);
    assert forall|i: int| 0 <= i < 20 implies made[i] == part[i] by {
        if i < 2 {
            assert(made[i] == family[i]);
            assert(bytes.subrange(cursor as int, cursor + 2)[i] == bytes[cursor + i]);
        } else if i < 4 {
            assert(made[i] == seq![0u8, 0u8][i - 2]);
            assert(is_reserved((cursor + i) - cursor) && bytes[cursor + i] == 0);
        } else if i < 8 {
            assert(made[i] == address[i - 4]);
            assert(bytes.subrange(cursor + 4, cursor + 8)[i - 4] == bytes[cursor + i]);
        } else if i < 16 {
            assert(made[i] == gap[i - 8]);
            assert(is_reserved((cursor + i) - cursor) && bytes[cursor + i] == 0);
        } else {
            assert(made[i] == metric[i - 16]);
            assert(bytes.subrange(cursor + 16, cursor + 20)[i - 16] == bytes[cursor + i]);
        }
    }
    assert(made =~= part);
}

/// Where the address family decodes and any reserved byte of the entry is in
/// the buffer and not zero, decoding fails on the first such byte: it
/// reports that byte with the cursor one past it.
pub proof fn lemma_reserved_byte_enforced(cursor: usize, bytes: Seq<u8>, at: int)
    requires
        bytes.len() <= usize::MAX,
        Identifier::decode(cursor, bytes) is Ok,
        is_reserved(at - cursor),
        at < bytes.len(),
        bytes[at] != 0,
    ensures
        decode(cursor, bytes) matches Err(ParseError::NotZeroByte(byte, next)) && {
            &&& cursor < next <= at + 1
            &&& is_reserved(next - 1 - cursor)
            &&& byte == bytes[next - 1]
            &&& byte != 0
            &&& forall|i: int| cursor <= i < next - 1 && is_reserved(i - cursor) ==> bytes[i] == 0
        },
{
    if bytes[cursor + 2] != 0 {
        lemma_zeros_any_violation(2, (cursor + 2) as usize, bytes, cursor + 2);
    } else if bytes[cursor + 3] != 0 {
        lemma_zeros_any_violation(2, (cursor + 2) as usize, bytes, cursor + 3);
    } else {
        lemma_zeros_ok(2, (cursor + 2) as usize, bytes);
        lemma_zeros_any_violation(8, (cursor + 8) as usize, bytes, at);
    }
}

/// The decoder of version 1 entries.
pub struct EntriesParser {}

impl PacketParsable<Entry> for EntriesParser {
    open spec fn decode_entry(&self, cursor: usize, bytes: Seq<u8>) -> Result<
        Parsed<Entry>,
        ParseError,
    > {
        decode(cursor, bytes)
    }

    fn parse_entry(&self, cursor: usize, bytes: &[u8]) -> (r: Result<(Entry, usize), ParseError>)
        ensures
            r matches Ok((_, next)) ==> next == cursor + 20,
    {
        let (address_family_identifier, cursor) = Identifier::parse(cursor, bytes)?;
        let cursor = skip(2, cursor, bytes)?;
        let (ip_address, cursor) = crate::ipv4::parse(cursor, bytes)?;
        let cursor = skip(8, cursor, bytes)?;
        let (metric, cursor) = crate::metric::parse(cursor, bytes)?;
        Ok((Entry::new(address_family_identifier, ip_address, metric), cursor))
    }

    proof fn lemma_decodes_wire(&self, entry: Entry, cursor: usize, bytes: Seq<u8>) {
        lemma_round_trip(entry, cursor, bytes);
    }

    proof fn lemma_encodes_decoded(&self, cursor: usize, bytes: Seq<u8>) {
        lemma_wire_of_decoded(cursor, bytes);
    }
}

} // verus!
