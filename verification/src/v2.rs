use crate::address_family::Identifier;
use crate::big_endian::{u16_bytes, u32_bytes};
use crate::ipv4::Ipv4Addr;
use crate::packet::VersionedEntry;
use crate::parser::{PacketParsable, ParseError, Parsed};
use crate::serializer::{Serializable, SerializeError};
use crate::version::Version;
use vstd::prelude::*;

verus! {

/// One route of a version 2 packet.
#[derive(PartialEq, Eq, Structural, Debug)]
pub struct Entry {
    pub address_family_identifier: Identifier,
    pub route_tag: u16,
    pub ip_address: Ipv4Addr,
    pub subnet_mask: Ipv4Addr,
    pub next_hop: Ipv4Addr,
    pub metric: u32,
}

impl Entry {
    pub fn new(
        address_family_identifier: Identifier,
        route_tag: u16,
        ip_address: Ipv4Addr,
        subnet_mask: Ipv4Addr,
        next_hop: Ipv4Addr,
        metric: u32,
    ) -> (entry: Entry)
        ensures
            entry == (Entry {
                address_family_identifier,
                route_tag,
                ip_address,
                subnet_mask,
                next_hop,
                metric,
            }),
    {
        Entry { address_family_identifier, route_tag, ip_address, subnet_mask, next_hop, metric }
    }

    pub fn get_address_family_identifier(&self) -> (identifier: Identifier)
        ensures
            identifier == self.address_family_identifier,
    {
        self.address_family_identifier
    }

    pub fn get_route_tag(&self) -> (tag: u16)
        ensures
            tag == self.route_tag,
    {
        self.route_tag
    }

    pub fn get_ip_address(&self) -> (addr: Ipv4Addr)
        ensures
            addr == self.ip_address,
    {
        self.ip_address
    }

    pub fn get_subnet_mask(&self) -> (mask: Ipv4Addr)
        ensures
            mask == self.subnet_mask,
    {
        self.subnet_mask
    }

    pub fn get_next_hop(&self) -> (hop: Ipv4Addr)
        ensures
            hop == self.next_hop,
    {
        self.next_hop
    }

    pub fn get_metric(&self) -> (metric: u32)
        ensures
            metric == self.metric,
    {
        self.metric
    }
}

impl Serializable for Entry {
    /// Address family, route tag, address, subnet mask, next hop, metric.
    open spec fn wire(&self) -> Result<Seq<u8>, SerializeError> {
        match self.address_family_identifier.wire() {
            Err(e) => Err(e),
            Ok(family) => Ok(
                family + u16_bytes(self.route_tag) + self.ip_address.octet_seq()
                    + self.subnet_mask.octet_seq() + self.next_hop.octet_seq() + u32_bytes(
                    self.metric,
                ),
            ),
        }
    }

    fn to_bytes(&self) -> (r: Result<Vec<u8>, SerializeError>) {
        let mut bytes = self.get_address_family_identifier().to_bytes()?;
        let ghost family = bytes@;
        let mut tag = crate::route_tag::to_bytes(self.get_route_tag())?;
        bytes.append(&mut tag);
        let mut address = crate::ipv4::to_bytes(self.get_ip_address())?;
        bytes.append(&mut address);
        let mut mask = crate::ipv4::to_bytes(self.get_subnet_mask())?;
        bytes.append(&mut mask);
        let mut hop = crate::ipv4::to_bytes(self.get_next_hop())?;
        bytes.append(&mut hop);
        let mut metric = crate::metric::to_bytes(self.get_metric())?;
        bytes.append(&mut metric);
        assert(bytes@ =~= family + u16_bytes(self.route_tag) + self.ip_address.octet_seq()
            + self.subnet_mask.octet_seq() + self.next_hop.octet_seq() + u32_bytes(self.metric));
        Ok(bytes)
    }
}

impl VersionedEntry for Entry {
    open spec fn protocol_version() -> Version {
        Version::Version2
    }

    proof fn lemma_wire_length(&self) {
    }
}

/// The entry in the twenty bytes at `cursor`, with the cursor behind them:
/// address family, route tag, address, subnet mask, next hop, metric. The
/// fields are taken in this order, and the first that fails is reported.
pub open spec fn decode(cursor: usize, bytes: Seq<u8>) -> Result<Parsed<Entry>, ParseError> {
    match Identifier::decode(cursor, bytes) {
        Err(e) => Err(e),
        Ok((address_family_identifier, at_tag)) => match crate::route_tag::decode(at_tag, bytes) {
            Err(e) => Err(e),
            Ok((route_tag, at_address)) => match crate::ipv4::decode(at_address, bytes) {
                Err(e) => Err(e),
                Ok((ip_address, at_mask)) => match crate::ipv4::decode(at_mask, bytes) {
                    Err(e) => Err(e),
                    Ok((subnet_mask, at_hop)) => match crate::ipv4::decode(at_hop, bytes) {
                        Err(e) => Err(e),
                        Ok((next_hop, at_metric)) => match crate::metric::decode(
                            at_metric,
                            bytes,
                        ) {
                            Err(e) => Err(e),
                            Ok((metric, next)) => Ok(
                                (
                                    Entry {
                                        address_family_identifier,
                                        route_tag,
                                        ip_address,
                                        subnet_mask,
                                        next_hop,
                                        metric,
                                    },
                                    next,
                                ),
                            ),
                        },
                    },
                },
            },
        },
    }
}

/// An entry that decodes stands whole in the buffer, and the cursor ends
/// twenty bytes on.
pub proof fn lemma_decode_ok(cursor: usize, bytes: Seq<u8>)
    requires
        bytes.len() <= usize::MAX,
        decode(cursor, bytes) is Ok,
    ensures
        cursor + 20 <= bytes.len(),
        decode(cursor, bytes).unwrap().1 == cursor + 20,
{
}

/// With twenty bytes at hand, an entry decodes exactly when its first two
/// bytes name an address family: no other field can fail.
pub proof fn lemma_decodes_iff_family_known(cursor: usize, bytes: Seq<u8>)
    requires
        bytes.len() <= usize::MAX,
        cursor + 20 <= bytes.len(),
    ensures
        decode(cursor, bytes) is Ok <==> Identifier::decode(cursor, bytes) is Ok,
{
}

/// The bytes of an entry, wherever they stand in a buffer, decode to it.
pub proof fn lemma_round_trip(entry: Entry, cursor: usize, bytes: Seq<u8>)
    requires
        bytes.len() <= usize::MAX,
        cursor + 20 <= bytes.len(),
        entry.wire() == Ok::<Seq<u8>, SerializeError>(bytes.subrange(cursor as int, cursor + 20)),
    ensures
        decode(cursor, bytes) == Ok::<Parsed<Entry>, ParseError>((entry, (cursor + 20) as usize)),
{
    let part = bytes.subrange(cursor as int, cursor + 20);
    let family = entry.address_family_identifier.wire().unwrap();
    let tag = u16_bytes(entry.route_tag);
    let address = entry.ip_address.octet_seq();
    let mask = entry.subnet_mask.octet_seq();
    let hop = entry.next_hop.octet_seq();
    let metric = u32_bytes(entry.metric);
    assert(part == family + tag + address + mask + hop + metric);
    assert(family.len() == 2 && tag.len() == 2 && address.len() == 4 && mask.len() == 4
        && hop.len() == 4 && metric.len() == 4);
    assert forall|i: int| 0 <= i < 20 implies part[i] == bytes[cursor + i] by {}
    assert(bytes.subrange(cursor as int, cursor + 2) =~= family) by {
        assert forall|i: int| 0 <= i < 2 implies bytes.subrange(cursor as int, cursor + 2)[i]
            == family[i] by {
            assert(part[i] == family[i]);
        }
    }
    Identifier::lemma_round_trip(entry.address_family_identifier, cursor, bytes);
    assert(bytes.subrange(cursor + 2, cursor + 4) =~= tag) by {
        assert forall|i: int| 0 <= i < 2 implies bytes.subrange(cursor + 2, cursor + 4)[i]
            == tag[i] by {
            assert(part[i + 2] == tag[i]);
        }
    }
    crate::route_tag::lemma_round_trip(entry.route_tag, (cursor + 2) as usize, bytes);
    assert(bytes.subrange(cursor + 4, cursor + 8) =~= address) by {
        assert forall|i: int| 0 <= i < 4 implies bytes.subrange(cursor + 4, cursor + 8)[i]
            == address[i] by {
            assert(part[i + 4] == address[i]);
        }
    }
    crate::ipv4::lemma_round_trip(entry.ip_address, (cursor + 4) as usize, bytes);
    assert(bytes.subrange(cursor + 8, cursor + 12) =~= mask) by {
        assert forall|i: int| 0 <= i < 4 implies bytes.subrange(cursor + 8, cursor + 12)[i]
            == mask[i] by {
            assert(part[i + 8] == mask[i]);
        }
    }
    crate::ipv4::lemma_round_trip(entry.subnet_mask, (cursor + 8) as usize, bytes);
    assert(bytes.subrange(cursor + 12, cursor + 16) =~= hop) by {
        assert forall|i: int| 0 <= i < 4 implies bytes.subrange(cursor + 12, cursor + 16)[i]
            == hop[i] by {
            assert(part[i + 12] == hop[i]);
        }
    }
    crate::ipv4::lemma_round_trip(entry.next_hop, (cursor + 12) as usize, bytes);
    assert(bytes.subrange(cursor + 16, cursor + 20) =~= metric) by {
        assert forall|i: int| 0 <= i < 4 implies bytes.subrange(cursor + 16, cursor + 20)[i]
            == metric[i] by {
            assert(part[i + 16] == metric[i]);
        }
    }
    crate::metric::lemma_round_trip(entry.metric, (cursor + 16) as usize, bytes);
}

/// The twenty bytes that an entry was decoded from are its encoding.
pub proof fn lemma_wire_of_decoded(cursor: usize, bytes: Seq<u8>)
    requires
        bytes.len() <= usize::MAX,
        decode(cursor, bytes) is Ok,
    ensures
        cursor + 20 <= bytes.len(),
        decode(cursor, bytes).unwrap().1 == cursor + 20,
        decode(cursor, bytes).unwrap().0.wire() == Ok::<Seq<u8>, SerializeError>(
            bytes.subrange(cursor as int, cursor + 20),
        ),
{
    Identifier::lemma_wire_of_decoded(cursor, bytes);
    crate::route_tag::lemma_wire_of_decoded((cursor + 2) as usize, bytes);
    crate::ipv4::lemma_wire_of_decoded((cursor + 4) as usize, bytes);
    crate::ipv4::lemma_wire_of_decoded((cursor + 8) as usize, bytes);
    crate::ipv4::lemma_wire_of_decoded((cursor + 12) as usize, bytes);
    crate::metric::lemma_wire_of_decoded((cursor + 16) as usize, bytes);
    let entry = decode(cursor, bytes).unwrap().0;
    let part = bytes.subrange(cursor as int, cursor + 20);
    let made = entry.wire().unwrap();
    assert(made.len() == 20);
    assert forall|i: int| 0 <= i < 20 implies made[i] == part[i] by {
        if i < 2 {
            assert(bytes.subrange(cursor as int, cursor + 2)[i] == part[i]);
        } else if i < 4 {
            assert(bytes.subrange(cursor + 2, cursor + 4)[i - 2] == part[i]);
        } else if i < 8 {
            assert(bytes.subrange(cursor + 4, cursor + 8)[i - 4] == part[i]);
        } else if i < 12 {
            assert(bytes.subrange(cursor + 8, cursor + 12)[i - 8] == part[i]);
        } else if i < 16 {
            assert(bytes.subrange(cursor + 12, cursor + 16)[i - 12] == part[i]);
        } else {
            assert(bytes.subrange(cursor + 16, cursor + 20)[i - 16] == part[i]);
        }
    }
    assert(made =~= part);
}

/// The decoder of version 2 entries.
pub struct EntriesParser {}

impl PacketParsable<Entry> for EntriesParser {
    open spec fn decode_entry(&self, cursor: usize, bytes: Seq<u8>) -> Result<
        Parsed<Entry>,
        ParseError,
    > {
        decode(cursor, bytes)
    }

    fn parse_entry(&self, cursor: usize, bytes: &[u8]) -> (r: Result<(Entry, usize), ParseError>)
        ensures
            r matches Ok((_, next)) ==> next == cursor + 20,
    {
        let (address_family_identifier, cursor) = Identifier::parse(cursor, bytes)?;
        let (route_tag, cursor) = crate::route_tag::parse(cursor, bytes)?;
        let (ip_address, cursor) = crate::ipv4::parse(cursor, bytes)?;
        let (subnet_mask, cursor) = crate::ipv4::parse(cursor, bytes)?;
        let (next_hop, cursor) = crate::ipv4::parse(cursor, bytes)?;
        let (metric, cursor) = crate::metric::parse(cursor, bytes)?;
        Ok(
            (
                Entry::new(
                    address_family_identifier,
                    route_tag,
                    ip_address,
                    subnet_mask,
                    next_hop,
                    metric,
                ),
                cursor,
            ),
        )
    }

    proof fn lemma_decodes_wire(&self, entry: Entry, cursor: usize, bytes: Seq<u8>) {
        lemma_round_trip(entry, cursor, bytes);
    }

    proof fn lemma_encodes_decoded(&self, cursor: usize, bytes: Seq<u8>) {
        lemma_wire_of_decoded(cursor, bytes);
    }
}

} // verus!
