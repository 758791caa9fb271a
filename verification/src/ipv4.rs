use crate::byte_reader::{out_of_input, read};
use crate::parser::{ParseError, Parsed};
use crate::serializer::{encoded, SerializeError};
use vstd::prelude::*;

verus! {

/// An IPv4 address: four octets, of which every pattern is an address.
#[derive(PartialEq, Eq, Structural, Copy, Clone, Debug)]
pub struct Ipv4Addr {
    pub first: u8,
    pub second: u8,
    pub third: u8,
    pub fourth: u8,
}

impl Ipv4Addr {
    pub fn new(first: u8, second: u8, third: u8, fourth: u8) -> (addr: Ipv4Addr)
        ensures
            addr == (Ipv4Addr { first, second, third, fourth }),
    {
        Ipv4Addr { first, second, third, fourth }
    }

    /// The octets in the order in which they are written and sent.
    pub open spec fn octet_seq(self) -> Seq<u8> {
        seq![self.first, self.second, self.third, self.fourth]
    }

    pub fn octets(&self) -> (o: [u8; 4])
        ensures
            o@ == self.octet_seq(),
    {
        let o: [u8; 4] = [self.first, self.second, self.third, self.fourth];
        assert(o@ =~= self.octet_seq());
        o
    }
}

/// The address in the four bytes at `cursor`, with the cursor behind them.
pub open spec fn decode(cursor: usize, bytes: Seq<u8>) -> Result<Parsed<Ipv4Addr>, ParseError> {
    if cursor + 4 <= bytes.len() {
        Ok(
            (
                Ipv4Addr {
                    first: bytes[cursor as int],
                    second: bytes[cursor + 1],
                    third: bytes[cursor + 2],
                    fourth: bytes[cursor + 3],
                },
                (cursor + 4) as usize,
            ),
        )
    } else {
        Err(out_of_input(cursor, bytes))
    }
}

pub fn parse(cursor: usize, bytes: &[u8]) -> (r: Result<Parsed<Ipv4Addr>, ParseError>)
    ensures
        r == decode(cursor, bytes@),
        r matches Ok((_, next)) ==> next == cursor + 4,
{
    let (first, cursor) = read(cursor, bytes)?;
    let (second, cursor) = read(cursor, bytes)?;
    let (third, cursor) = read(cursor, bytes)?;
    let (fourth, cursor) = read(cursor, bytes)?;
    Ok((Ipv4Addr::new(first, second, third, fourth), cursor))
}

pub fn to_bytes(ipv4: Ipv4Addr) -> (r: Result<Vec<u8>, SerializeError>)
    ensures
        encoded(r) == Ok::<Seq<u8>, SerializeError>(ipv4.octet_seq()),
{
    let mut bytes: Vec<u8> = Vec::new();
    bytes.push(ipv4.first);
    bytes.push(ipv4.second);
    bytes.push(ipv4.third);
    bytes.push(ipv4.fourth);
    assert(bytes@ =~= ipv4.octet_seq());
    Ok(bytes)
}

/// The octets of an address, wherever they stand in a buffer, decode to it.
pub proof fn lemma_round_trip(addr: Ipv4Addr, cursor: usize, bytes: Seq<u8>)
    requires
        bytes.len() <= usize::MAX,
        cursor + 4 <= bytes.len(),
        bytes.subrange(cursor as int, cursor + 4) == addr.octet_seq(),
    ensures
        decode(cursor, bytes) == Ok::<Parsed<Ipv4Addr>, ParseError>((addr, (cursor + 4) as usize)),
{
    let part = bytes.subrange(cursor as int, cursor + 4);
    assert(part[0] == bytes[cursor as int] && part[1] == bytes[cursor + 1] && part[2]
        == bytes[cursor + 2] && part[3] == bytes[cursor + 3]);
}

/// The four bytes that an address was decoded from are its octets.
pub proof fn lemma_wire_of_decoded(cursor: usize, bytes: Seq<u8>)
    requires
        bytes.len() <= usize::MAX,
        decode(cursor, bytes) is Ok,
    ensures
        cursor + 4 <= bytes.len(),
        decode(cursor, bytes).unwrap().0.octet_seq() == bytes.subrange(cursor as int, cursor + 4),
{
    assert(bytes.subrange(cursor as int, cursor + 4) =~= seq![
        bytes[cursor as int],
        bytes[cursor + 1],
        bytes[cursor + 2],
        bytes[cursor + 3],
    ]);
}

} // verus!
