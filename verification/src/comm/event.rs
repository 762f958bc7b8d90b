//! Event transmission and receiving.
//!
//! Handles sending an event packet, and receiving an event packet.  A packet
//! on the wire is a header of 32 octets (the packet's id, the id of the
//! command it answers, the name of the event, the size of the payload) and
//! the payload behind it.

use super::rwutil::{be_octets, be_u32, get_be_u32, lemma_be_round_trip, read_chunked_bytes, write_chunked};
use super::stream::{is_unexpected_eof, ByteReader};
use crate::runtime::error::{IoError, IoErrorKind};
use vstd::prelude::*;
use vstd::string::StringSliceAdditionalSpecFns;

verus! {

pub const EVENT_PACKET_HEADER_PACKET_ID_SIZE: usize = 8;

pub const HEADER_PACKET_ID_POS_START: usize = 0;

pub const HEADER_PACKET_ID_POS_END: usize = 8;

pub const HEADER_CMD_PACKET_ID_POS_START: usize = 8;

pub const HEADER_CMD_PACKET_ID_POS_END: usize = 16;

pub const HEADER_EVENT_ID_POS_START: usize = 16;

pub const HEADER_EVENT_ID_POS_END: usize = 28;

pub const HEADER_SIZE_POS_START: usize = 28;

pub const HEADER_SIZE_POS_END: usize = 32;

/// Number of octets in the header.
pub const HEADER_COUNT: usize = 32;

/// The header for event packets.
pub struct EventPacketHeader {
    pub packet_id: [u8; 8],
    pub cmd_packet_id: [u8; 8],
    pub event_id: [u8; 12],
    pub size: usize,
}

/// The full event packet.
/// The payload length must match the header's size value.
pub struct EventPacket {
    pub header: EventPacketHeader,
    pub payload: Vec<u8>,
}

/// Handles reading events.
pub struct EventReader {
    max_payload_size: usize,
}

/// Handles writing events.
pub struct EventWriter {}

const BUFFER_SIZE: usize = 8192;

/// The octets of a header on the wire.
pub open spec fn header_octets(header: EventPacketHeader) -> Seq<u8> {
    header.packet_id@ + header.cmd_packet_id@ + header.event_id@ + be_octets(header.size as u32)
}

/// The octets of a packet on the wire.
pub open spec fn event_frame(packet: EventPacket) -> Seq<u8> {
    header_octets(packet.header) + packet.payload@
}

/// The eight octets of a number, the one that weighs most first.
pub open spec fn be_octets_u64(value: u64) -> Seq<u8> {
    be_octets((value / 0x1_0000_0000) as u32) + be_octets((value % 0x1_0000_0000) as u32)
}

/// The name of an event as the header holds it: its first twelve octets, with
/// zeros behind a shorter name.
pub open spec fn event_id_octets(name: Seq<u8>) -> Seq<u8> {
    Seq::new(
        12,
        |i: int|
            if i < name.len() {
                name[i]
            } else {
                0u8
            },
    )
}

/// True for the error that a size beyond the reader's maximum gives.
pub open spec fn is_too_large(e: IoError) -> bool {
    e.kind == IoErrorKind::InvalidData && e.message@ == "packet size too large"@
}

/// True for the error that a header gives which does not fit its payload.
pub open spec fn is_size_mismatch(e: IoError) -> bool {
    e.kind == IoErrorKind::InvalidInput && e.message@ == "header size != payload size"@
}

/// True for the error that a size gives which four octets cannot hold.
pub open spec fn is_out_of_range(e: IoError) -> bool {
    e.kind == IoErrorKind::InvalidInput && e.message@
        == "out of range integral type conversion attempted"@
}

fn header_packet_id(header: &[u8]) -> (id: [u8; 8])
    requires
        header@.len() == HEADER_COUNT,
    ensures
        id@ == header@.subrange(HEADER_PACKET_ID_POS_START as int, HEADER_PACKET_ID_POS_END as int),
{
    let id = [
        header[HEADER_PACKET_ID_POS_START + 0],
        header[HEADER_PACKET_ID_POS_START + 1],
        header[HEADER_PACKET_ID_POS_START + 2],
        header[HEADER_PACKET_ID_POS_START + 3],
        header[HEADER_PACKET_ID_POS_START + 4],
        header[HEADER_PACKET_ID_POS_START + 5],
        header[HEADER_PACKET_ID_POS_START + 6],
        header[HEADER_PACKET_ID_POS_START + 7],
    ];
    assert(id@ =~= header@.subrange(
        HEADER_PACKET_ID_POS_START as int,
        HEADER_PACKET_ID_POS_END as int,
    ));
    id
}

fn header_cmd_packet_id(header: &[u8]) -> (id: [u8; 8])
    requires
        header@.len() == HEADER_COUNT,
    ensures
        id@ == header@.subrange(
            HEADER_CMD_PACKET_ID_POS_START as int,
            HEADER_CMD_PACKET_ID_POS_END as int,
        ),
{
    let id = [
        header[HEADER_CMD_PACKET_ID_POS_START + 0],
        header[HEADER_CMD_PACKET_ID_POS_START + 1],
        header[HEADER_CMD_PACKET_ID_POS_START + 2],
        header[HEADER_CMD_PACKET_ID_POS_START + 3],
        header[HEADER_CMD_PACKET_ID_POS_START + 4],
        header[HEADER_CMD_PACKET_ID_POS_START + 5],
        header[HEADER_CMD_PACKET_ID_POS_START + 6],
        header[HEADER_CMD_PACKET_ID_POS_START + 7],
    ];
    assert(id@ =~= header@.subrange(
        HEADER_CMD_PACKET_ID_POS_START as int,
        HEADER_CMD_PACKET_ID_POS_END as int,
    ));
    id
}

fn header_event_id(header: &[u8]) -> (id: [u8; 12])
    requires
        header@.len() == HEADER_COUNT,
    ensures
        id@ == header@.subrange(HEADER_EVENT_ID_POS_START as int, HEADER_EVENT_ID_POS_END as int),
{
    let id = [
        header[HEADER_EVENT_ID_POS_START + 0],
        header[HEADER_EVENT_ID_POS_START + 1],
        header[HEADER_EVENT_ID_POS_START + 2],
        header[HEADER_EVENT_ID_POS_START + 3],
        header[HEADER_EVENT_ID_POS_START + 4],
        header[HEADER_EVENT_ID_POS_START + 5],
        header[HEADER_EVENT_ID_POS_START + 6],
        header[HEADER_EVENT_ID_POS_START + 7],
        header[HEADER_EVENT_ID_POS_START + 8],
        header[HEADER_EVENT_ID_POS_START + 9],
        header[HEADER_EVENT_ID_POS_START + 10],
        header[HEADER_EVENT_ID_POS_START + 11],
    ];
    assert(id@ =~= header@.subrange(
        HEADER_EVENT_ID_POS_START as int,
        HEADER_EVENT_ID_POS_END as int,
    ));
    id
}

fn header_size_octets(header: &[u8]) -> (octets: [u8; 4])
    requires
        header@.len() == HEADER_COUNT,
    ensures
        octets@ == header@.subrange(HEADER_SIZE_POS_START as int, HEADER_SIZE_POS_END as int),
{
    let octets = [
        header[HEADER_SIZE_POS_START + 0],
        header[HEADER_SIZE_POS_START + 1],
        header[HEADER_SIZE_POS_START + 2],
        header[HEADER_SIZE_POS_START + 3],
    ];
    assert(octets@ =~= header@.subrange(
        HEADER_SIZE_POS_START as int,
        HEADER_SIZE_POS_END as int,
    ));
    octets
}

/// The size of the payload that a header announces, where the reader takes it.
pub fn header_size(header: &[u8], max_size: usize) -> (r: Result<usize, IoError>)
    requires
        header@.len() == HEADER_COUNT,
    ensures
        ({
            let size = be_u32(
                header@.subrange(HEADER_SIZE_POS_START as int, HEADER_SIZE_POS_END as int),
            );
            &&& size <= max_size <==> r is Ok
            &&& r matches Ok(n) ==> n == size
            &&& r matches Err(e) ==> is_too_large(e)
        }),
{
    let octets = header_size_octets(header);
    let size = get_be_u32(octets.as_slice()) as usize;
    if size > max_size {
        return Err(IoError::new(IoErrorKind::InvalidData, "packet size too large"));
    }
    Ok(size)
}

/// The four octets of a size, where four octets can hold it.
pub fn size_to_octets(size: usize) -> (r: Result<[u8; 4], IoError>)
    ensures
        size <= u32::MAX <==> r is Ok,
        r matches Ok(octets) ==> octets@ == be_octets(size as u32),
        r matches Err(e) ==> is_out_of_range(e),
{
    if size > 0xffff_ffff {
        return Err(
            IoError::new(
                IoErrorKind::InvalidInput,
                "out of range integral type conversion attempted",
            ),
        );
    }
    let value = size as u32;
    let octets = [
        (value / 0x100_0000) as u8,
        (value / 0x1_0000 % 0x100) as u8,
        (value / 0x100 % 0x100) as u8,
        (value % 0x100) as u8,
    ];
    assert(octets@ =~= be_octets(value));
    Ok(octets)
}

/// The eight octets of an id.
fn id_octets(value: u64) -> (octets: [u8; 8])
    ensures
        octets@ == be_octets_u64(value),
{
    let high = (value / 0x1_0000_0000) as u32;
    let low = (value % 0x1_0000_0000) as u32;
    let octets = [
        (high / 0x100_0000) as u8,
        (high / 0x1_0000 % 0x100) as u8,
        (high / 0x100 % 0x100) as u8,
        (high % 0x100) as u8,
        (low / 0x100_0000) as u8,
        (low / 0x1_0000 % 0x100) as u8,
        (low / 0x100 % 0x100) as u8,
        (low % 0x100) as u8,
    ];
    assert(octets@ =~= be_octets_u64(value));
    octets
}

impl EventReader {
    /// The largest payload that this reader takes.
    pub closed spec fn max_size(&self) -> usize {
        self.max_payload_size
    }

    pub fn new(max_payload_size: usize) -> (reader: EventReader)
        ensures
            reader.max_size() == max_payload_size,
    {
        EventReader { max_payload_size }
    }

    /// Read the next event packet from the stream.
    ///
    /// The header is read first.  A size beyond the reader's maximum is
    /// refused with the payload left in the stream; a stream that ends inside
    /// the header or the payload fails and is left empty.
    pub fn read(self, source: &mut ByteReader) -> (r: Result<EventPacket, IoError>)
        ensures
            ({
                let src = old(source)@;
                let size = be_u32(
                    src.subrange(HEADER_SIZE_POS_START as int, HEADER_SIZE_POS_END as int),
                );
                if src.len() < HEADER_COUNT {
                    r matches Err(e) && is_unexpected_eof(e) && final(source)@.len() == 0
                } else if size > self.max_size() {
                    r matches Err(e) && is_too_large(e) && final(source)@ == src.skip(
                        HEADER_COUNT as int,
                    )
                } else if src.len() < HEADER_COUNT + size {
                    r matches Err(e) && is_unexpected_eof(e) && final(source)@.len() == 0
                } else {
                    &&& r matches Ok(packet)
                    &&& packet.header.packet_id@ == src.subrange(
                        HEADER_PACKET_ID_POS_START as int,
                        HEADER_PACKET_ID_POS_END as int,
                    )
                    &&& packet.header.cmd_packet_id@ == src.subrange(
                        HEADER_CMD_PACKET_ID_POS_START as int,
                        HEADER_CMD_PACKET_ID_POS_END as int,
                    )
                    &&& packet.header.event_id@ == src.subrange(
                        HEADER_EVENT_ID_POS_START as int,
                        HEADER_EVENT_ID_POS_END as int,
                    )
                    &&& packet.header.size == size
                    &&& packet.payload@ == src.subrange(HEADER_COUNT as int, HEADER_COUNT + size)
                    &&& final(source)@ == src.skip(HEADER_COUNT + size)
                }
            }),
    {
        let ghost src = old(source)@;
        let header_buff = source.read_exact(HEADER_COUNT)?;
        let header = header_buff.as_slice();
        proof {
            assert(header@.subrange(HEADER_SIZE_POS_START as int, HEADER_SIZE_POS_END as int)
                =~= src.subrange(HEADER_SIZE_POS_START as int, HEADER_SIZE_POS_END as int));
            assert(header@.subrange(
                HEADER_PACKET_ID_POS_START as int,
                HEADER_PACKET_ID_POS_END as int,
            ) =~= src.subrange(HEADER_PACKET_ID_POS_START as int, HEADER_PACKET_ID_POS_END as int));
            assert(header@.subrange(
                HEADER_CMD_PACKET_ID_POS_START as int,
                HEADER_CMD_PACKET_ID_POS_END as int,
            ) =~= src.subrange(
                HEADER_CMD_PACKET_ID_POS_START as int,
                HEADER_CMD_PACKET_ID_POS_END as int,
            ));
            assert(header@.subrange(
                HEADER_EVENT_ID_POS_START as int,
                HEADER_EVENT_ID_POS_END as int,
            ) =~= src.subrange(HEADER_EVENT_ID_POS_START as int, HEADER_EVENT_ID_POS_END as int));
        }
        let size = header_size(header, self.max_payload_size)?;
        let payload = read_chunked_bytes::<BUFFER_SIZE>(source, size)?;
        proof {
            assert(src.skip(HEADER_COUNT as int).take(size as int) =~= src.subrange(
                HEADER_COUNT as int,
                HEADER_COUNT + size,
            ));
            assert(src.skip(HEADER_COUNT as int).skip(size as int) =~= src.skip(
                HEADER_COUNT + size,
            ));
        }
        Ok(
            EventPacket {
                header: EventPacketHeader {
                    packet_id: header_packet_id(header),
                    cmd_packet_id: header_cmd_packet_id(header),
                    event_id: header_event_id(header),
                    size,
                },
                payload,
            },
        )
    }
}

/// Appends the octets of an array.
fn push_octets<const N: usize>(out: &mut Vec<u8>, octets: &[u8; N])
    ensures
        final(out)@ == old(out)@ + octets@,
{
    let mut i: usize = 0;
    while i < N
        invariant
            i <= N,
            octets@.len() == N,
            out@ == old(out)@ + octets@.take(i as int),
        decreases N - i,
    {
        out.push(octets[i]);
        i += 1;
        assert(out@ =~= old(out)@ + octets@.take(i as int));
    }
    assert(octets@.take(N as int) =~= octets@);
}

impl EventWriter {
    pub fn new() -> (writer: EventWriter)
        ensures
            writer == (EventWriter {  }),
    {
        EventWriter {  }
    }

    /// Writes the packet to the stream.
    ///
    /// This writes the packet exactly as specified in the header.
    /// If the payload does not match the header's size, or the size does not
    /// fit the header, then this returns an error without writing anything.
    pub fn write(self, out: &mut Vec<u8>, packet: &EventPacket) -> (r: Result<(), IoError>)
        ensures
            (packet.header.size == packet.payload@.len() && packet.header.size <= u32::MAX)
                <==> r is Ok,
            r is Ok ==> final(out)@ == old(out)@ + event_frame(*packet),
            r matches Err(e) ==> final(out)@ == old(out)@ && if packet.header.size
                != packet.payload@.len() {
                is_size_mismatch(e)
            } else {
                is_out_of_range(e)
            },
    {
        if packet.header.size != packet.payload.len() {
            return Err(IoError::new(IoErrorKind::InvalidInput, "header size != payload size"));
        }
        let header_size = size_to_octets(packet.header.size)?;
        push_octets(out, &packet.header.packet_id);
        push_octets(out, &packet.header.cmd_packet_id);
        push_octets(out, &packet.header.event_id);
        push_octets(out, &header_size);
        assert(out@ =~= old(out)@ + header_octets(packet.header));
        write_chunked::<BUFFER_SIZE>(out, &packet.payload)?;
        assert(out@ =~= old(out)@ + event_frame(*packet));
        Ok(())
    }

    /// Write the event, with the event ID as a &str.
    ///
    /// Of an event string larger than the maximum length (12) the first
    /// twelve octets are taken.  If it's less than the length, then it is
    /// zero padded.
    ///
    /// The packet IDs are turned into big-endian formatted bytes.
    pub fn write_event_str(
        self,
        out: &mut Vec<u8>,
        packet_id: u64,
        cmd_packet_id: u64,
        event: &str,
        payload: Vec<u8>,
    ) -> (r: Result<(), IoError>)
        ensures
            payload@.len() <= u32::MAX <==> r is Ok,
            r is Ok ==> final(out)@ == old(out)@ + be_octets_u64(packet_id) + be_octets_u64(
                cmd_packet_id,
            ) + event_id_octets(event.spec_bytes()) + be_octets(payload@.len() as u32) + payload@,
            r matches Err(e) ==> is_out_of_range(e) && final(out)@ == old(out)@,
    {
        let mut header = EventPacketHeader {
            packet_id: id_octets(packet_id),
            cmd_packet_id: id_octets(cmd_packet_id),
            event_id: [0;12],
            size: payload.len(),
        };
        let evt_bytes = event.as_bytes();
        let evt_size = if evt_bytes.len() < 12 {
            evt_bytes.len()
        } else {
            12
        };
        let mut i: usize = 0;
        while i < evt_size
            invariant
                i <= evt_size <= 12,
                evt_size <= evt_bytes@.len(),
                header.size == payload@.len(),
                header.packet_id@ == be_octets_u64(packet_id),
                header.cmd_packet_id@ == be_octets_u64(cmd_packet_id),
                forall|k: int| 0 <= k < i ==> header.event_id@[k] == evt_bytes@[k],
                forall|k: int| i <= k < 12 ==> header.event_id@[k] == 0,
            decreases evt_size - i,
        {
            header.event_id[i] = evt_bytes[i];
            i += 1;
        }
        assert(header.event_id@ =~= event_id_octets(event.spec_bytes()));
        let packet = EventPacket { header, payload };
        let r = self.write(out, &packet);
        proof {
            if r is Ok {
                assert(out@ =~= old(out)@ + be_octets_u64(packet_id) + be_octets_u64(
                    cmd_packet_id,
                ) + event_id_octets(event.spec_bytes()) + be_octets(payload@.len() as u32)
                    + payload@);
            }
        }
        r
    }
}

/// What is written for a packet is read back as that packet, with what
/// follows it left in the stream: in a frame each part of the header stands
/// in its place, the four octets of the size give the payload's length, and
/// the payload stands behind the header.
pub proof fn lemma_event_frame_round_trip(packet: EventPacket, rest: Seq<u8>)
    requires
        packet.header.size == packet.payload@.len(),
        packet.header.size <= u32::MAX,
    ensures
        ({
            let src = event_frame(packet) + rest;
            let size = packet.header.size;
            &&& src.subrange(HEADER_PACKET_ID_POS_START as int, HEADER_PACKET_ID_POS_END as int)
                == packet.header.packet_id@
            &&& src.subrange(
                HEADER_CMD_PACKET_ID_POS_START as int,
                HEADER_CMD_PACKET_ID_POS_END as int,
            ) == packet.header.cmd_packet_id@
            &&& src.subrange(HEADER_EVENT_ID_POS_START as int, HEADER_EVENT_ID_POS_END as int)
                == packet.header.event_id@
            &&& be_u32(src.subrange(HEADER_SIZE_POS_START as int, HEADER_SIZE_POS_END as int))
                == size
            &&& src.subrange(HEADER_COUNT as int, HEADER_COUNT + size) == packet.payload@
            &&& src.skip(HEADER_COUNT + size) == rest
        }),
{
    let src = event_frame(packet) + rest;
    let size = packet.header.size;
    lemma_be_round_trip(size as u32);
    assert(src.subrange(HEADER_PACKET_ID_POS_START as int, HEADER_PACKET_ID_POS_END as int)
        =~= packet.header.packet_id@);
    assert(src.subrange(
        HEADER_CMD_PACKET_ID_POS_START as int,
        HEADER_CMD_PACKET_ID_POS_END as int,
    ) =~= packet.header.cmd_packet_id@);
    assert(src.subrange(HEADER_EVENT_ID_POS_START as int, HEADER_EVENT_ID_POS_END as int)
        =~= packet.header.event_id@);
    assert(src.subrange(HEADER_SIZE_POS_START as int, HEADER_SIZE_POS_END as int) =~= be_octets(
        size as u32,
    ));
    assert(src.subrange(HEADER_COUNT as int, HEADER_COUNT + size) =~= packet.payload@);
    assert(src.skip(HEADER_COUNT + size) =~= rest);
}

} // verus!
