use crate::big_endian::{join_u32, split_u32, u32_bytes, u32_of};
use crate::byte_reader::{out_of_input, read};
use crate::parser::{ParseError, Parsed};
use crate::serializer::{encoded, SerializeError};
use vstd::prelude::*;

verus! {

pub type Metric = u32;

/// The metric in the four bytes at `cursor`, with the cursor behind them.
pub open spec fn decode(cursor: usize, bytes: Seq<u8>) -> Result<Parsed<Metric>, ParseError> {
    if cursor + 4 <= bytes.len() {
        Ok(
            (
                u32_of(
                    bytes[cursor as int],
                    bytes[cursor + 1],
                    bytes[cursor + 2],
                    bytes[cursor + 3],
                ),
                (cursor + 4) as usize,
            ),
        )
    } else {
        Err(out_of_input(cursor, bytes))
    }
}

pub fn parse(cursor: usize, bytes: &[u8]) -> (r: Result<Parsed<Metric>, ParseError>)
    ensures
        r == decode(cursor, bytes@),
        r matches Ok((_, next)) ==> next == cursor + 4,
{
    let (first, cursor) = read(cursor, bytes)?;
    let (second, cursor) = read(cursor, bytes)?;
    let (third, cursor) = read(cursor, bytes)?;
    let (fourth, cursor) = read(cursor, bytes)?;
    Ok((join_u32(first, second, third, fourth), cursor))
}

pub fn to_bytes(value: Metric) -> (r: Result<Vec<u8>, SerializeError>)
    ensures
        encoded(r) == Ok::<Seq<u8>, SerializeError>(u32_bytes(value)),
{
    Ok(split_u32(value))
}

/// The bytes of a metric, wherever they stand in a buffer, decode to it.
pub proof fn lemma_round_trip(value: Metric, cursor: usize, bytes: Seq<u8>)
    requires
        bytes.len() <= usize::MAX,
        cursor + 4 <= bytes.len(),
        bytes.subrange(cursor as int, cursor + 4) == u32_bytes(value),
    ensures
        decode(cursor, bytes) == Ok::<Parsed<Metric>, ParseError>((value, (cursor + 4) as usize)),
{
    let part = bytes.subrange(cursor as int, cursor + 4);
    assert(part[0] == bytes[cursor as int] && part[1] == bytes[cursor + 1] && part[2]
        == bytes[cursor + 2] && part[3] == bytes[cursor + 3]);
    crate::big_endian::lemma_u32_of_bytes(value);
}

/// The four bytes that a metric was decoded from are its encoding.
pub proof fn lemma_wire_of_decoded(cursor: usize, bytes: Seq<u8>)
    requires
        bytes.len() <= usize::MAX,
        decode(cursor, bytes) is Ok,
    ensures
        cursor + 4 <= bytes.len(),
        u32_bytes(decode(cursor, bytes).unwrap().0) == bytes.subrange(cursor as int, cursor + 4),
{
    crate::big_endian::lemma_u32_bytes_of(
        bytes[cursor as int],
        bytes[cursor + 1],
        bytes[cursor + 2],
        bytes[cursor + 3],
    );
    assert(bytes.subrange(cursor as int, cursor + 4) =~= seq![
        bytes[cursor as int],
        bytes[cursor + 1],
        bytes[cursor + 2],
        bytes[cursor + 3],
    ]);
}

} // verus!
