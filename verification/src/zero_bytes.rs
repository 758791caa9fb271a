use crate::byte_reader::read;
use crate::parser::ParseError;
use vstd::prelude::*;

verus! {

/// What skipping `count` reserved bytes from `cursor` comes to: the cursor
/// behind them where all are there and zero; the first byte that is not
/// zero, with the cursor behind it; or the place where the input ends.
pub open spec fn zeros_from(count: nat, cursor: usize, bytes: Seq<u8>) -> Result<usize, ParseError>
    decreases count,
{
    if count == 0 {
        Ok(cursor)
    } else if cursor >= bytes.len() {
        Err(ParseError::InsufficientInputBytesLength(cursor))
    } else if bytes[cursor as int] != 0 {
        Err(ParseError::NotZeroByte(bytes[cursor as int], (cursor + 1) as usize))
    } else {
        zeros_from((count - 1) as nat, (cursor + 1) as usize, bytes)
    }
}

/// Skipping succeeds exactly when the whole region lies in the buffer and
/// holds nothing but zeros, and then ends right behind the region.
pub proof fn lemma_zeros_ok(count: nat, cursor: usize, bytes: Seq<u8>)
    requires
        bytes.len() <= usize::MAX,
        count > 0,
    ensures
        zeros_from(count, cursor, bytes) is Ok <==> (cursor + count <= bytes.len() && forall|i: int|
            cursor <= i < cursor + count ==> bytes[i] == 0),
        zeros_from(count, cursor, bytes) is Ok ==> zeros_from(count, cursor, bytes) == Ok::<
            usize,
            ParseError,
        >((cursor + count) as usize),
    decreases count,
{
    if cursor < bytes.len() && bytes[cursor as int] == 0 {
        if count > 1 {
            lemma_zeros_ok((count - 1) as nat, (cursor + 1) as usize, bytes);
            if zeros_from(count, cursor, bytes) is Ok {
                assert forall|i: int| cursor <= i < cursor + count implies bytes[i] == 0 by {
                    if i > cursor {
                        assert(cursor + 1 <= i < cursor + 1 + (count - 1));
                    }
                }
            }
        } else {
            assert(zeros_from(0, (cursor + 1) as usize, bytes) == Ok::<usize, ParseError>(
                (cursor + 1) as usize,
            ));
        }
    }
}

/// A byte of the region that is not zero, with only zeros before it in the
/// region, is what skipping reports, with the cursor one past that byte.
pub proof fn lemma_zeros_first_violation(count: nat, cursor: usize, bytes: Seq<u8>, at: int)
    requires
        bytes.len() <= usize::MAX,
        cursor <= at < cursor + count,
        at < bytes.len(),
        bytes[at] != 0,
        forall|i: int| cursor <= i < at ==> bytes[i] == 0,
    ensures
        zeros_from(count, cursor, bytes) == Err::<usize, ParseError>(
            ParseError::NotZeroByte(bytes[at], (at + 1) as usize),
        ),
    decreases count,
{
    if at > cursor {
        lemma_zeros_first_violation((count - 1) as nat, (cursor + 1) as usize, bytes, at);
    }
}

/// Where any byte of the region is in the buffer and not zero, skipping
/// reports the first such byte, with the cursor one past it.
pub proof fn lemma_zeros_any_violation(count: nat, cursor: usize, bytes: Seq<u8>, at: int)
    requires
        bytes.len() <= usize::MAX,
        cursor <= at < cursor + count,
        at < bytes.len(),
        bytes[at] != 0,
    ensures
        zeros_from(count, cursor, bytes) matches Err(ParseError::NotZeroByte(byte, next)) && {
            &&& cursor < next <= at + 1
            &&& byte == bytes[next - 1]
            &&& byte != 0
            &&& forall|i: int| cursor <= i < next - 1 ==> bytes[i] == 0
        },
    decreases count,
{
    if bytes[cursor as int] == 0 {
        lemma_zeros_any_violation((count - 1) as nat, (cursor + 1) as usize, bytes, at);
    }
}

/// Skips `num_of_zero_bytes` bytes that must all be zero.
pub fn skip(num_of_zero_bytes: usize, cursor: usize, bytes: &[u8]) -> (r: Result<usize, ParseError>)
    ensures
        r == zeros_from(num_of_zero_bytes as nat, cursor, bytes@),
        r matches Ok(next) ==> next == cursor + num_of_zero_bytes,
{
    let mut at: usize = cursor;
    let mut done: usize = 0;
    while done < num_of_zero_bytes
        invariant
            done <= num_of_zero_bytes,
            at == cursor + done,
            zeros_from(num_of_zero_bytes as nat, cursor, bytes@) == zeros_from(
                (num_of_zero_bytes - done) as nat,
                at,
                bytes@,
            ),
        decreases num_of_zero_bytes - done,
    {
        let (byte, next) = match read(at, bytes) {
            Ok(pair) => pair,
            Err(e) => {
                return Err(e);
            },
        };
        if byte != 0 {
            return Err(ParseError::NotZeroByte(byte, next));
        }
        at = next;
        done = done + 1;
    }
    Ok(at)
}

} // verus!
