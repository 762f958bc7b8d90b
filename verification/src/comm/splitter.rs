//! Split a stream based on a u8 value.

use super::rwutil;
use super::stream::{is_unexpected_eof, ByteReader};
use crate::runtime::error::IoError;
use vstd::prelude::*;

verus! {

/// The place of the first byte `sep`, or the length where there is none.
pub open spec fn first_sep(bytes: Seq<u8>, sep: u8) -> int
    decreases bytes.len(),
{
    if bytes.len() == 0 || bytes[0] == sep {
        0
    } else {
        1 + first_sep(bytes.drop_first(), sep)
    }
}

/// The place of the first `sep` lies inside the bytes or at their end, and no
/// byte before it is `sep`.
pub proof fn lemma_first_sep(bytes: Seq<u8>, sep: u8)
    ensures
        0 <= first_sep(bytes, sep) <= bytes.len(),
        forall|i: int| 0 <= i < first_sep(bytes, sep) ==> bytes[i] != sep,
        first_sep(bytes, sep) < bytes.len() ==> bytes[first_sep(bytes, sep)] == sep,
    decreases bytes.len(),
{
    if bytes.len() > 0 && bytes[0] != sep {
        lemma_first_sep(bytes.drop_first(), sep);
        assert forall|i: int| 0 <= i < first_sep(bytes, sep) implies bytes[i] != sep by {
            if i > 0 {
                assert(bytes.drop_first()[i - 1] == bytes[i]);
            }
        }
    }
}

/// A place that holds `sep`, with no `sep` before it, is the first.
pub proof fn lemma_first_sep_is(bytes: Seq<u8>, sep: u8, at: int)
    requires
        0 <= at <= bytes.len(),
        forall|i: int| 0 <= i < at ==> bytes[i] != sep,
        at < bytes.len() ==> bytes[at] == sep,
    ensures
        first_sep(bytes, sep) == at,
    decreases bytes.len(),
{
    if at > 0 {
        assert(bytes[0] != sep);
        assert forall|i: int| 0 <= i < at - 1 implies bytes.drop_first()[i] != sep by {
            assert(bytes.drop_first()[i] == bytes[i + 1]);
        }
        lemma_first_sep_is(bytes.drop_first(), sep, at - 1);
    }
}

const _BUF_SIZE: usize = 8192;

/// Read from the stream up to the separator, or the maximum length value.
///
/// On standard exit, it returns the read bytes + whether the separator was found (true)
/// or the length was encountered (false).  The separator is taken off the
/// stream and is not part of the bytes returned.  Where the stream ends before
/// either, the read fails.
pub fn read_next(source: &mut ByteReader, sep: u8, max_len: usize) -> (r: Result<
    (Vec<u8>, bool),
    IoError,
>)
    ensures
        ({
            let at = first_sep(old(source)@, sep);
            if at < max_len && at < old(source)@.len() {
                &&& r matches Ok((bytes, found))
                &&& found
                &&& bytes@ == old(source)@.take(at)
                &&& final(source)@ == old(source)@.skip(at + 1)
            } else if max_len <= old(source)@.len() {
                &&& r matches Ok((bytes, found))
                &&& !found
                &&& bytes@ == old(source)@.take(max_len as int)
                &&& final(source)@ == old(source)@.skip(max_len as int)
            } else {
                &&& r matches Err(e)
                &&& is_unexpected_eof(e)
                &&& final(source)@.len() == 0
            }
        }),
{
    let mut ret: Vec<u8> = Vec::new();
    let mut count: usize = 0;
    let mut sep_found = false;
    proof {
        lemma_first_sep(old(source)@, sep);
        assert(old(source)@.skip(0) =~= old(source)@);
    }
    while count < max_len && !sep_found
        invariant
            count <= max_len,
            !sep_found ==> {
                &&& count <= old(source)@.len()
                &&& source@ == old(source)@.skip(count as int)
                &&& ret@ == old(source)@.take(count as int)
                &&& forall|i: int| 0 <= i < count ==> old(source)@[i] != sep
            },
            sep_found ==> {
                let at = first_sep(old(source)@, sep);
                &&& at < max_len
                &&& at < old(source)@.len()
                &&& ret@ == old(source)@.take(at)
                &&& source@ == old(source)@.skip(at + 1)
            },
        decreases max_len - count + (if sep_found { 0int } else { 1int }),
    {
        let ghost before = source@;
        let got = source.read_exact(1);
        match got {
            Err(e) => {
                proof {
                    lemma_first_sep_is(old(source)@, sep, count as int);
                }
                return Err(e);
            },
            Ok(buf) => {
                assert(buf@[0] == old(source)@[count as int]);
                assert(source@ =~= old(source)@.skip(count + 1));
                if buf[0] == sep {
                    proof {
                        lemma_first_sep_is(old(source)@, sep, count as int);
                    }
                    sep_found = true;
                } else {
                    ret.push(buf[0]);
                    count += 1;
                    assert(ret@ =~= old(source)@.take(count as int));
                }
            },
        }
    }
    proof {
        if !sep_found {
            let at = first_sep(old(source)@, sep);
            lemma_first_sep(old(source)@, sep);
            if at < max_len && at < old(source)@.len() {
                assert(old(source)@[at] == sep);
                assert(false);
            }
        }
    }
    Ok((ret, sep_found))
}

/// True where the bytes hold all that one reading takes: a separator within
/// the first `max_len` bytes, or `max_len` bytes.
pub open spec fn holds_next(bytes: Seq<u8>, sep: u8, max_len: usize) -> bool {
    let at = first_sep(bytes, sep);
    (at < max_len && at < bytes.len()) || max_len <= bytes.len()
}

/// Tells whoever feeds a reading byte by byte whether one more byte is to be
/// fetched: as long as the last byte fetched is no separator and fewer than
/// `max_len` bytes are there.  Fed in this way, the bytes lack something
/// exactly as long as the answer is yes.
pub fn wants_more(taken: &Vec<u8>, sep: u8, max_len: usize) -> (r: bool)
    ensures
        r == ((taken@.len() == 0 || taken@.last() != sep) && taken@.len() < max_len),
        (forall|i: int| 0 <= i < taken@.len() - 1 ==> taken@[i] != sep) ==> r == !holds_next(
            taken@,
            sep,
            max_len,
        ),
{
    let len = taken.len();
    let ended = len > 0 && taken[len - 1] == sep;
    proof {
        if forall|i: int| 0 <= i < taken@.len() - 1 ==> taken@[i] != sep {
            if ended {
                lemma_first_sep_is(taken@, sep, len - 1);
            } else {
                lemma_first_sep_is(taken@, sep, len as int);
            }
        }
    }
    !ended && len < max_len
}

/// Write the next item to the stream plus the separator.
pub fn write_next(out: &mut Vec<u8>, data: &Vec<u8>, sep: u8) -> (r: Result<(), IoError>)
    ensures
        r is Ok,
        final(out)@ == (old(out)@ + data@).push(sep),
{
    rwutil::write_chunked::<_BUF_SIZE>(out, data)?;
    out.push(sep);
    Ok(())
}

} // verus!
