use grackle_zero::comm::event::{EventPacket, EventPacketHeader, EventReader, EventWriter};
use grackle_zero::comm::packet::{U8Packet, U8PacketRead, U8PacketWrite};
use grackle_zero::comm::rwutil::{get_be_u32, read_chunked_bytes, set_be_u32, write_chunked};
use grackle_zero::comm::sizedpacket::{SizeHeader, SizePacketRead, SizePacketWrite, HEADER_LEN};
use grackle_zero::comm::splitter::{read_next, wants_more, write_next};
use grackle_zero::comm::stream::ByteReader;
use grackle_zero::runtime::error::IoErrorKind;

const ZERO_SIZE_EVENT: &[u8] = &[
    // Packet ID: 8 bytes
    0x01, 0x02, 0x03, 0x04, 0x05, 0x06, 0x07, 0x08,
    // Cmd Packet ID: 8 bytes
    0x11, 0x12, 0x13, 0x14, 0x15, 0x16, 0x17, 0x18,
    // Event ID: 12 bytes
    0x21, 0x22, 0x23, 0x24, 0x25, 0x26, 0x27, 0x28, 0x29, 0x2a, 0x2b, 0x2c,
    // Payload size: 4 bytes
    0x00, 0x00, 0x00, 0x00,
    // Payload: 0 bytes
    //
    // Some extra data to ensure EOF isn't incorrectly handled.
    0x99,
];

const ZERO_SIZE_PACKET: &[u8] = &[
    // Payload size: 4 bytes
    0x00, 0x00, 0x00, 0x00,
    // Payload: 0 bytes
    //
    // Some extra data to ensure EOF isn't incorrectly handled.
    0x99,
];

#[test]
fn event_test_read_zero_bytes() {
    let mut source = ByteReader::new(ZERO_SIZE_EVENT.to_vec());
    let data = EventReader::new(10).read(&mut source).unwrap();
    assert_eq!(data.header.packet_id, ZERO_SIZE_EVENT[0..8]);
    assert_eq!(data.header.cmd_packet_id, ZERO_SIZE_EVENT[8..16]);
    assert_eq!(data.header.event_id, ZERO_SIZE_EVENT[16..28]);
    assert_eq!(data.header.size, 0);
    assert_eq!(data.payload.len(), 0);
    assert_eq!(source.remaining(), 1);
}

#[test]
fn event_test_write_zero_bytes() {
    let mut packet_id = [0u8; 8];
    packet_id.copy_from_slice(&ZERO_SIZE_EVENT[0..8]);
    let mut cmd_packet_id = [0u8; 8];
    cmd_packet_id.copy_from_slice(&ZERO_SIZE_EVENT[8..16]);
    let mut event_id = [0u8; 12];
    event_id.copy_from_slice(&ZERO_SIZE_EVENT[16..28]);
    let mut out: Vec<u8> = Vec::new();
    EventWriter::new()
        .write(
            &mut out,
            &EventPacket {
                header: EventPacketHeader { packet_id, cmd_packet_id, event_id, size: 0 },
                payload: vec![],
            },
        )
        .unwrap();
    assert_eq!(out.eq(&ZERO_SIZE_EVENT[0..32]), true);
}

#[test]
fn sizedpacket_test_read_zero_bytes() {
    let r = SizePacketRead::new(10);
    let mut source = ByteReader::new(ZERO_SIZE_PACKET.to_vec());
    let data = &r.read(&mut source).unwrap();
    assert_eq!(data.header.size, 0);
    assert_eq!(data.payload.len(), 0);
}

#[test]
fn sizedpacket_test_write_zero_bytes() {
    let mut out: Vec<u8> = Vec::new();
    SizePacketWrite::new()
        .write(&mut out, &U8Packet { header: SizeHeader { size: 0 }, payload: vec![] })
        .unwrap();
    let data = &out[..];
    assert!(
        data.eq(&ZERO_SIZE_PACKET[0..HEADER_LEN]),
        "found: {:02X?}, expected: {:02X?}",
        data,
        &ZERO_SIZE_PACKET[0..HEADER_LEN]
    );
}

#[test]
fn event_round_trip_with_payload() {
    let mut out: Vec<u8> = vec![0xee];
    EventWriter::new()
        .write_event_str(&mut out, 0x0102030405060708, 0x1112131415161718, "ping", vec![7, 8, 9])
        .unwrap();
    let mut expected = vec![0xee, 1, 2, 3, 4, 5, 6, 7, 8];
    expected.extend_from_slice(&[0x11, 0x12, 0x13, 0x14, 0x15, 0x16, 0x17, 0x18]);
    expected.extend_from_slice(b"ping\0\0\0\0\0\0\0\0");
    expected.extend_from_slice(&[0, 0, 0, 3, 7, 8, 9]);
    assert_eq!(out, expected);
    let mut source = ByteReader::new(out[1..].to_vec());
    let packet = EventReader::new(3).read(&mut source).unwrap();
    assert_eq!(packet.header.packet_id, [1, 2, 3, 4, 5, 6, 7, 8]);
    assert_eq!(&packet.header.event_id, b"ping\0\0\0\0\0\0\0\0");
    assert_eq!(packet.header.size, 3);
    assert_eq!(packet.payload, vec![7, 8, 9]);
    assert_eq!(source.remaining(), 0);
}

#[test]
fn event_name_longer_than_twelve_is_cut() {
    let mut out: Vec<u8> = Vec::new();
    EventWriter::new().write_event_str(&mut out, 0, 0, "abcdefghijklmnop", vec![]).unwrap();
    assert_eq!(&out[16..28], b"abcdefghijkl");
}

#[test]
fn event_reader_refuses_oversize_and_short_input() {
    let mut frame = ZERO_SIZE_EVENT[0..28].to_vec();
    frame.extend_from_slice(&[0, 0, 0, 11]);
    frame.extend_from_slice(&[0u8; 11]);
    let mut source = ByteReader::new(frame.clone());
    let err = EventReader::new(10).read(&mut source).err().unwrap();
    assert_eq!(err.kind, IoErrorKind::InvalidData);
    assert_eq!(err.message, "packet size too large");
    assert_eq!(source.remaining(), 11);

    let mut source = ByteReader::new(frame[0..40].to_vec());
    let err = EventReader::new(11).read(&mut source).err().unwrap();
    assert_eq!(err.kind, IoErrorKind::UnexpectedEof);
    assert_eq!(source.remaining(), 0);

    let mut source = ByteReader::new(frame[0..31].to_vec());
    let err = EventReader::new(11).read(&mut source).err().unwrap();
    assert_eq!(err.kind, IoErrorKind::UnexpectedEof);
}

#[test]
fn event_writer_refuses_mismatched_size() {
    let mut out: Vec<u8> = vec![1];
    let err = EventWriter::new()
        .write(
            &mut out,
            &EventPacket {
                header: EventPacketHeader {
                    packet_id: [0; 8],
                    cmd_packet_id: [0; 8],
                    event_id: [0; 12],
                    size: 2,
                },
                payload: vec![1],
            },
        )
        .err()
        .unwrap();
    assert_eq!(err.kind, IoErrorKind::InvalidInput);
    assert_eq!(err.message, "header size != payload size");
    assert_eq!(out, vec![1]);
}

#[test]
fn sized_packet_round_trip() {
    let mut out: Vec<u8> = Vec::new();
    let payload: Vec<u8> = (0..=300u32).map(|i| (i % 251) as u8).collect();
    SizePacketWrite::new()
        .write(&mut out, &U8Packet { header: SizeHeader { size: 301 }, payload: payload.clone() })
        .unwrap();
    assert_eq!(&out[0..4], &[0, 0, 1, 45]);
    out.push(0x42);
    let mut source = ByteReader::new(out);
    let packet = SizePacketRead::new(301).read(&mut source).unwrap();
    assert_eq!(packet.header.size, 301);
    assert_eq!(packet.payload, payload);
    assert_eq!(source.remaining(), 1);
}

#[test]
fn sized_packet_errors() {
    let mut source = ByteReader::new(vec![0, 0, 0, 5, 1, 2, 3, 4, 5]);
    let err = SizePacketRead::new(4).read(&mut source).err().unwrap();
    assert_eq!(err.kind, IoErrorKind::InvalidInput);
    assert_eq!(err.message, "payload size exceeded packet maximum");
    assert_eq!(source.remaining(), 5);

    let mut source = ByteReader::new(vec![0, 0, 0, 5, 1, 2]);
    let err = SizePacketRead::new(5).read(&mut source).err().unwrap();
    assert_eq!(err.kind, IoErrorKind::UnexpectedEof);

    let mut out: Vec<u8> = Vec::new();
    let err = SizePacketWrite::new()
        .write(&mut out, &U8Packet { header: SizeHeader { size: 1 }, payload: vec![] })
        .err()
        .unwrap();
    assert_eq!(err.kind, IoErrorKind::InvalidInput);
    assert!(out.is_empty());
}

#[test]
fn big_endian_numbers() {
    assert_eq!(get_be_u32(&[0x12, 0x34, 0x56, 0x78]), 0x12345678);
    assert_eq!(get_be_u32(&[0xff, 0xff, 0xff, 0xff]), u32::MAX);
    let mut buff = [9u8; 6];
    set_be_u32(0x01020304, &mut buff);
    assert_eq!(buff, [1, 2, 3, 4, 9, 9]);
    let mut buff = [0u8; 4];
    set_be_u32(0xfffefdfc, &mut buff);
    assert_eq!(get_be_u32(&buff), 0xfffefdfc);
}

#[test]
fn chunked_reading_and_writing() {
    let data: Vec<u8> = (0..20u8).collect();
    let mut source = ByteReader::new(data.clone());
    let read = read_chunked_bytes::<3>(&mut source, 17).unwrap();
    assert_eq!(read, data[0..17].to_vec());
    assert_eq!(source.remaining(), 3);
    let err = read_chunked_bytes::<3>(&mut source, 4).err().unwrap();
    assert_eq!(err.kind, IoErrorKind::UnexpectedEof);
    assert_eq!(source.remaining(), 0);

    let mut out: Vec<u8> = vec![0xaa];
    write_chunked::<7>(&mut out, &data).unwrap();
    assert_eq!(out.len(), 21);
    assert_eq!(&out[1..], &data[..]);
}

#[test]
fn splitter_reads_up_to_separator_or_limit() {
    let mut source = ByteReader::new(b"ab,cd,efgh".to_vec());
    assert_eq!(read_next(&mut source, b',', 10).unwrap(), (b"ab".to_vec(), true));
    assert_eq!(read_next(&mut source, b',', 2).unwrap(), (b"cd".to_vec(), false));
    assert_eq!(read_next(&mut source, b',', 5).unwrap(), (vec![], true));
    assert_eq!(read_next(&mut source, b',', 0).unwrap(), (vec![], false));
    let err = read_next(&mut source, b',', 10).err().unwrap();
    assert_eq!(err.kind, IoErrorKind::UnexpectedEof);
    assert_eq!(source.remaining(), 0);
}

#[test]
fn splitter_tells_when_to_fetch_another_byte() {
    assert!(wants_more(&vec![], b',', 3));
    assert!(!wants_more(&vec![], b',', 0));
    assert!(wants_more(&b"ab".to_vec(), b',', 3));
    assert!(!wants_more(&b"abc".to_vec(), b',', 3));
    assert!(!wants_more(&b"a,".to_vec(), b',', 3));
    assert!(!wants_more(&b",".to_vec(), b',', 3));
    // Fed byte by byte, the bytes are what one reading takes.
    let stream = b"one;two";
    let mut taken = vec![];
    let mut at = 0;
    while wants_more(&taken, b';', 5) {
        taken.push(stream[at]);
        at += 1;
    }
    assert_eq!(taken, b"one;".to_vec());
    let mut source = ByteReader::new(taken);
    assert_eq!(read_next(&mut source, b';', 5).unwrap(), (b"one".to_vec(), true));
    assert_eq!(source.remaining(), 0);
}

#[test]
fn splitter_writes_item_and_separator() {
    let mut out: Vec<u8> = Vec::new();
    write_next(&mut out, &b"one".to_vec(), b';').unwrap();
    write_next(&mut out, &vec![], b';').unwrap();
    assert_eq!(out, b"one;;".to_vec());
}

#[test]
fn byte_reader_takes_from_the_front() {
    let mut source = ByteReader::new(vec![1, 2, 3]);
    assert_eq!(source.read_exact(2).unwrap(), vec![1, 2]);
    assert_eq!(source.read_exact(0).unwrap(), vec![]);
    assert!(source.read_exact(2).is_err());
    assert_eq!(source.remaining(), 0);
}
