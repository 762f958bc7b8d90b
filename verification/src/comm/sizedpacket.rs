//! Decode the data stream as a "sized packet", where it has an envelope containing only the size of the payload.

use super::packet::{U8Packet, U8PacketRead, U8PacketWrite};
use super::rwutil::{be_octets, be_u32, get_be_u32, lemma_be_round_trip, read_chunked_bytes, write_chunked};
use super::stream::{is_unexpected_eof, ByteReader};
use crate::runtime::error::{IoError, IoErrorKind};
use vstd::prelude::*;

verus! {

pub struct SizeHeader {
    pub size: usize,
}

/// Number of octets in the SizeHeader.
pub const HEADER_LEN: usize = 4;

/// Maximum payload size allowed by the header.
pub const MAX_PAYLOAD_SIZE: usize = 0xffff_ffff;

/// The full event packet that uses a size envelope.
pub type SizePacket = U8Packet<SizeHeader>;

/// Handles reading SizePacket values.
///
/// While the size has a theoretical maximum of 2^32 octets (4 GB),
/// implementations should put a practical cap on this.
pub struct SizePacketRead {
    max_payload_size: usize,
}

/// Handles writing SizePacket values.
pub struct SizePacketWrite {}

/// The bytes that carry a payload: its length in four octets, then the
/// payload.  Of a length beyond four octets the low four are taken.
pub open spec fn size_frame(payload: Seq<u8>) -> Seq<u8> {
    be_octets((payload.len() % 0x1_0000_0000) as u32) + payload
}

/// True for the error that a size beyond the reader's maximum gives.
pub open spec fn is_oversize(e: IoError) -> bool {
    e.kind == IoErrorKind::InvalidInput && e.message@ == "payload size exceeded packet maximum"@
}

/// True for the error that a header gives which does not fit its payload.
pub open spec fn is_size_mismatch(e: IoError) -> bool {
    e.kind == IoErrorKind::InvalidInput && e.message@ == "header size != payload size"@
}

const PACKET_BUFFER_SIZE: usize = 8192;

impl SizePacketRead {
    /// The largest payload that this reader takes.
    pub closed spec fn max_size(&self) -> usize {
        self.max_payload_size
    }

    /// A reader that takes payloads up to the size given.  The maximum is part
    /// of the protocol; one beyond what the header can express is a bug of the
    /// caller.
    pub fn new(max_payload_size: usize) -> (reader: SizePacketRead)
        requires
            max_payload_size <= MAX_PAYLOAD_SIZE,
        ensures
            reader.max_size() == max_payload_size,
    {
        SizePacketRead { max_payload_size }
    }
}

impl U8PacketRead<SizeHeader> for SizePacketRead {
    /// Reads one packet: four octets of size, then that many bytes.  A size
    /// beyond the maximum is refused once the header is read; a stream that
    /// ends early fails and is left empty.
    fn read(&self, source: &mut ByteReader) -> (r: Result<U8Packet<SizeHeader>, IoError>)
        ensures
            ({
                let src = old(source)@;
                let size = be_u32(src.take(HEADER_LEN as int));
                if src.len() < HEADER_LEN {
                    r matches Err(e) && is_unexpected_eof(e) && final(source)@.len() == 0
                } else if size > self.max_size() {
                    r matches Err(e) && is_oversize(e) && final(source)@ == src.skip(
                        HEADER_LEN as int,
                    )
                } else if src.len() < HEADER_LEN + size {
                    r matches Err(e) && is_unexpected_eof(e) && final(source)@.len() == 0
                } else {
                    &&& r matches Ok(packet)
                    &&& packet.header.size == size
                    &&& packet.payload@ == src.subrange(HEADER_LEN as int, HEADER_LEN + size)
                    &&& final(source)@ == src.skip(HEADER_LEN + size)
                }
            }),
    {
        let header_buff = source.read_exact(HEADER_LEN)?;
        let size = get_be_u32(header_buff.as_slice()) as usize;
        if size > self.max_payload_size {
            return Err(
                IoError::new(IoErrorKind::InvalidInput, "payload size exceeded packet maximum"),
            );
        }
        let header = SizeHeader { size };
        let payload = read_chunked_bytes::<PACKET_BUFFER_SIZE>(source, size)?;
        proof {
            let src = old(source)@;
            assert(src.skip(HEADER_LEN as int).take(size as int) =~= src.subrange(
                HEADER_LEN as int,
                HEADER_LEN + size,
            ));
            assert(src.skip(HEADER_LEN as int).skip(size as int) =~= src.skip(HEADER_LEN + size));
        }
        Ok(U8Packet { header, payload })
    }
}

impl SizePacketWrite {
    pub fn new() -> (writer: SizePacketWrite)
        ensures
            writer == (SizePacketWrite {  }),
    {
        SizePacketWrite {  }
    }
}

impl U8PacketWrite<SizeHeader> for SizePacketWrite {
    /// Writes one packet: the size in four octets, then the payload.  A header
    /// that does not give the payload's length is refused, and nothing is
    /// written.  Of a size beyond four octets only the low four are written.
    fn write(&self, out: &mut Vec<u8>, packet: &U8Packet<SizeHeader>) -> (r: Result<(), IoError>)
        ensures
            packet.header.size == packet.payload@.len() <==> r is Ok,
            r is Ok ==> final(out)@ == old(out)@ + size_frame(packet.payload@),
            r matches Err(e) ==> is_size_mismatch(e) && final(out)@ == old(out)@,
    {
        // Validate the packet.
        if packet.header.size != packet.payload.len() {
            return Err(IoError::new(IoErrorKind::InvalidInput, "header size != payload size"));
        }
        let size: u32 = ((packet.header.size as u64) % 0x1_0000_0000) as u32;
        out.push((size / 0x100_0000) as u8);
        out.push((size / 0x1_0000 % 0x100) as u8);
        out.push((size / 0x100 % 0x100) as u8);
        out.push((size % 0x100) as u8);
        assert(out@ =~= old(out)@ + be_octets(size));
        write_chunked::<PACKET_BUFFER_SIZE>(out, &packet.payload)?;
        assert(out@ =~= old(out)@ + size_frame(packet.payload@));
        Ok(())
    }
}

/// What is written for a payload is read back as that payload, with what
/// follows it left in the stream: in a frame the four octets give the
/// payload's length, and the payload stands behind them.
pub proof fn lemma_size_frame_round_trip(payload: Seq<u8>, rest: Seq<u8>)
    requires
        payload.len() <= MAX_PAYLOAD_SIZE,
    ensures
        ({
            let src = size_frame(payload) + rest;
            &&& be_u32(src.take(HEADER_LEN as int)) == payload.len()
            &&& src.subrange(HEADER_LEN as int, HEADER_LEN + payload.len()) == payload
            &&& src.skip(HEADER_LEN + payload.len()) == rest
        }),
{
    let src = size_frame(payload) + rest;
    lemma_be_round_trip(payload.len() as u32);
    assert(src.take(HEADER_LEN as int) =~= be_octets(payload.len() as u32));
    assert(src.subrange(HEADER_LEN as int, HEADER_LEN + payload.len()) =~= payload);
    assert(src.skip(HEADER_LEN + payload.len()) =~= rest);
}

} // verus!
