use crate::big_endian::{join_u16, split_u16, u16_bytes, u16_of};
use crate::byte_reader::{out_of_input, read};
use crate::parser::{ParseError, Parsed};
use crate::serializer::{encoded, SerializeError};
use vstd::prelude::*;

verus! {

pub type RouteTag = u16;

/// The route tag in the two bytes at `cursor`, with the cursor behind them.
pub open spec fn decode(cursor: usize, bytes: Seq<u8>) -> Result<Parsed<RouteTag>, ParseError> {
    if cursor + 2 <= bytes.len() {
        Ok((u16_of(bytes[cursor as int], bytes[cursor + 1]), (cursor + 2) as usize))
    } else {
        Err(out_of_input(cursor, bytes))
    }
}

pub fn parse(cursor: usize, bytes: &[u8]) -> (r: Result<Parsed<RouteTag>, ParseError>)
    ensures
        r == decode(cursor, bytes@),
        r matches Ok((_, next)) ==> next == cursor + 2,
{
    let (first, cursor) = read(cursor, bytes)?;
    let (second, cursor) = read(cursor, bytes)?;
    Ok((join_u16(first, second), cursor))
}

pub fn to_bytes(value: RouteTag) -> (r: Result<Vec<u8>, SerializeError>)
    ensures
        encoded(r) == Ok::<Seq<u8>, SerializeError>(u16_bytes(value)),
{
    Ok(split_u16(value))
}

/// The bytes of a route tag, wherever they stand in a buffer, decode to it.
pub proof fn lemma_round_trip(value: RouteTag, cursor: usize, bytes: Seq<u8>)
    requires
        bytes.len() <= usize::MAX,
        cursor + 2 <= bytes.len(),
        bytes.subrange(cursor as int, cursor + 2) == u16_bytes(value),
    ensures
        decode(cursor, bytes) == Ok::<Parsed<RouteTag>, ParseError>((value, (cursor + 2) as usize)),
{
    let part = bytes.subrange(cursor as int, cursor + 2);
    assert(part[0] == bytes[cursor as int] && part[1] == bytes[cursor + 1]);
    crate::big_endian::lemma_u16_of_bytes(value);
}

/// The two bytes that a route tag was decoded from are its encoding.
pub proof fn lemma_wire_of_decoded(cursor: usize, bytes: Seq<u8>)
    requires
        bytes.len() <= usize::MAX,
        decode(cursor, bytes) is Ok,
    ensures
        cursor + 2 <= bytes.len(),
        u16_bytes(decode(cursor, bytes).unwrap().0) == bytes.subrange(cursor as int, cursor + 2),
{
    crate::big_endian::lemma_u16_bytes_of(bytes[cursor as int], bytes[cursor + 1]);
    assert(bytes.subrange(cursor as int, cursor + 2) =~= seq![
        bytes[cursor as int],
        bytes[cursor + 1],
    ]);
}

} // verus!
