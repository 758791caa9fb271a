use crate::parser::ParseError;
use vstd::prelude::*;

verus! {

/// The error of a read that runs out of input: it names the first position
/// at or behind `cursor` that the buffer does not hold.
pub open spec fn out_of_input(cursor: usize, bytes: Seq<u8>) -> ParseError {
    if cursor <= bytes.len() {
        ParseError::InsufficientInputBytesLength(bytes.len() as usize)
    } else {
        ParseError::InsufficientInputBytesLength(cursor)
    }
}

/// The byte under the cursor with the next cursor, or the cursor itself as
/// the place where the input ends.
pub open spec fn byte_at(cursor: usize, bytes: Seq<u8>) -> Result<(u8, usize), ParseError> {
    if cursor < bytes.len() {
        Ok((bytes[cursor as int], (cursor + 1) as usize))
    } else {
        Err(ParseError::InsufficientInputBytesLength(cursor))
    }
}

/// Reads one byte and advances the cursor by one.
pub fn read(cursor: usize, bytes: &[u8]) -> (r: Result<(u8, usize), ParseError>)
    ensures
        r == byte_at(cursor, bytes@),
        r matches Ok((_, next)) ==> next == cursor + 1 && next <= bytes@.len(),
{
    if cursor < bytes.len() {
        Ok((bytes[cursor], cursor + 1))
    } else {
        Err(ParseError::InsufficientInputBytesLength(cursor))
    }
}

} // verus!
