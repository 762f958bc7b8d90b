//! Read & Write utility functions.

use super::stream::{is_unexpected_eof, ByteReader};
use crate::runtime::error::IoError;
use vstd::prelude::*;
use vstd::arithmetic::div_mod::lemma_fundamental_div_mod_converse;

verus! {

/// Number of octets (bytes) in a u32.
pub const U32_SIZE: usize = 4;

/// The number that four octets stand for, the first one weighing most.
pub open spec fn be_u32(octets: Seq<u8>) -> int {
    octets[0] * 0x100_0000 + octets[1] * 0x1_0000 + octets[2] * 0x100 + octets[3]
}

/// The four octets of a number, the one that weighs most first.
pub open spec fn be_octets(value: u32) -> Seq<u8> {
    seq![
        (value / 0x100_0000) as u8,
        (value / 0x1_0000 % 0x100) as u8,
        (value / 0x100 % 0x100) as u8,
        (value % 0x100) as u8,
    ]
}

/// The octets of a number stand for that number.
pub proof fn lemma_be_round_trip(value: u32)
    ensures
        be_u32(be_octets(value)) == value,
{
}

/// A number is told from any other by its octets.
pub proof fn lemma_be_octets_of(octets: Seq<u8>)
    requires
        octets.len() == 4,
    ensures
        0 <= be_u32(octets) <= u32::MAX,
        be_octets(be_u32(octets) as u32) == octets,
{
    let value = be_u32(octets);
    let low3 = octets[1] * 0x1_0000 + octets[2] * 0x100 + octets[3];
    let low2 = octets[2] * 0x100 + octets[3];
    lemma_fundamental_div_mod_converse(value, 0x100_0000, octets[0] as int, low3);
    lemma_fundamental_div_mod_converse(
        value,
        0x1_0000,
        octets[0] * 0x100 + octets[1],
        low2,
    );
    lemma_fundamental_div_mod_converse(value / 0x1_0000, 0x100, octets[0] as int, octets[1] as int);
    lemma_fundamental_div_mod_converse(
        value,
        0x100,
        octets[0] * 0x1_0000 + octets[1] * 0x100 + octets[2],
        octets[3] as int,
    );
    lemma_fundamental_div_mod_converse(
        value / 0x100,
        0x100,
        octets[0] * 0x100 + octets[1],
        octets[2] as int,
    );
    assert(be_octets(value as u32) =~= octets);
}

/// Convert the slice of U32_SIZE u8 into a u32, using big endian encoding.
pub fn get_be_u32(buff: &[u8]) -> (value: u32)
    requires
        buff@.len() == U32_SIZE,
    ensures
        value == be_u32(buff@),
{
    let b0: u32 = buff[0] as u32;
    let b1: u32 = buff[1] as u32;
    let b2: u32 = buff[2] as u32;
    let b3: u32 = buff[3] as u32;
    b0 * 0x100_0000 + b1 * 0x1_0000 + b2 * 0x100 + b3
}

/// Put the u32, as big endian, into the slice.
pub fn set_be_u32(value: u32, buff: &mut [u8])
    requires
        old(buff)@.len() >= U32_SIZE,
    ensures
        final(buff)@.len() == old(buff)@.len(),
        final(buff)@.take(U32_SIZE as int) == be_octets(value),
        final(buff)@.skip(U32_SIZE as int) == old(buff)@.skip(U32_SIZE as int),
{
    buff[0] = (value / 0x100_0000) as u8;
    buff[1] = (value / 0x1_0000 % 0x100) as u8;
    buff[2] = (value / 0x100 % 0x100) as u8;
    buff[3] = (value % 0x100) as u8;
    assert(buff@.take(U32_SIZE as int) =~= be_octets(value));
    assert(buff@.skip(U32_SIZE as int) =~= old(buff)@.skip(U32_SIZE as int));
}

/// Read the `count` number of bytes from the reader in chunks of `COUNT`
/// bytes.
pub fn read_chunked_bytes<const COUNT: usize>(source: &mut ByteReader, count: usize) -> (r: Result<
    Vec<u8>,
    IoError,
>)
    requires
        COUNT > 0,
    ensures
        count <= old(source)@.len() <==> r is Ok,
        r matches Ok(payload) ==> payload@ == old(source)@.take(count as int) && final(source)@
            == old(source)@.skip(count as int),
        r matches Err(e) ==> is_unexpected_eof(e) && final(source)@.len() == 0,
{
    let mut payload: Vec<u8> = Vec::with_capacity(count);
    let mut left = count;
    assert(old(source)@.skip(0) =~= old(source)@);
    while left > 0
        invariant
            COUNT > 0,
            left <= count,
            payload@ == old(source)@.take(count - left),
            count - left <= old(source)@.len(),
            source@ == old(source)@.skip(count - left),
        decreases left,
    {
        let read_count = if COUNT < left {
            COUNT
        } else {
            left
        };
        let mut chunk = source.read_exact(read_count)?;
        payload.append(&mut chunk);
        left -= read_count;
        assert(payload@ =~= old(source)@.take(count - left));
        assert(source@ =~= old(source)@.skip(count - left));
    }
    Ok(payload)
}

/// Write the data to the stream in chunks of `COUNT` bytes.
pub fn write_chunked<const COUNT: usize>(out: &mut Vec<u8>, data: &Vec<u8>) -> (r: Result<
    (),
    IoError,
>)
    requires
        COUNT > 0,
    ensures
        r is Ok,
        final(out)@ == old(out)@ + data@,
{
    let mut done: usize = 0;
    while done < data.len()
        invariant
            COUNT > 0,
            done <= data@.len(),
            out@ == old(out)@ + data@.take(done as int),
        decreases data@.len() - done,
    {
        let end = if data.len() - done > COUNT {
            done + COUNT
        } else {
            data.len()
        };
        let mut i = done;
        while i < end
            invariant
                done <= i <= end <= data@.len(),
                out@ == old(out)@ + data@.take(i as int),
            decreases end - i,
        {
            out.push(data[i]);
            i += 1;
            assert(out@ =~= old(out)@ + data@.take(i as int));
        }
        done = end;
    }
    assert(data@.take(data@.len() as int) =~= data@);
    Ok(())
}

} // verus!
