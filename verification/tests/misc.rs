use bytes::Bytes;
use usync::constants::{
    CHUNK_SIZE, DEFAULT_FRAME_LEN, DEFAULT_PAGE_CHUNKS, DEFAULT_PAGE_SIZE, MTU,
    TRANSMISSION_INFO_LENGTH, VERSION,
};
use usync::file::{check_segment, ChunkIndex, SegmentError};
use usync::plan::{make_plan, FileChunk, FileConfig};
use usync::protocol::key_ring::KeyRing;
use usync::protocol::wire::buffer::{flatten, to_array};
use usync::protocol::wire::encoding::{parse_packet, FrameExt, PacketExt};
use usync::protocol::wire::endian::{get_be16, get_be32, get_be64, put_be16, put_be32, put_be64};
use usync::protocol::wire::frames::{
    DataFrame, FrameType, GetChunkFrameHeader, RateLimitFrameHeader,
};
use usync::protocol::wire::packets::{DataPacket, DataPacketHeader, PacketType, TicketPacketHeader};
use usync::protocol::wire::{
    new_packet_id, CommonFrameHeader, CommonPacketHeader, Packet, RawParts, SpecificFrameHeader,
    SpecificPacketHeader,
};

#[test]
fn constants_are_those_of_the_protocol() {
    assert_eq!(VERSION, 1);
    assert_eq!(MTU, 1490);
    assert_eq!(DEFAULT_FRAME_LEN, 1440);
    assert_eq!(TRANSMISSION_INFO_LENGTH, 12);
    assert_eq!(CHUNK_SIZE, DEFAULT_PAGE_CHUNKS * DEFAULT_PAGE_SIZE);
    assert_eq!(CHUNK_SIZE, 32 * 1024 * 1024);
}

#[test]
fn packet_ids_count_up_and_wrap() {
    let mut counter = 0u32;
    assert_eq!(new_packet_id(&mut counter), 0);
    assert_eq!(new_packet_id(&mut counter), 1);
    assert_eq!(counter, 2);
    let mut counter = u32::MAX;
    assert_eq!(new_packet_id(&mut counter), u32::MAX);
    assert_eq!(counter, 0);
}

#[test]
fn type_bytes() {
    assert_eq!(PacketType::Data.to_u8(), 0x81);
    assert_eq!(PacketType::Ticket.to_u8(), 0x41);
    assert_eq!(u8::from(PacketType::Ticket), 0x41);
    assert_eq!(FrameType::Data.to_u8(), 0x01);
    assert_eq!(FrameType::GetChunk.to_u8(), 0x02);
    assert_eq!(FrameType::RateLimit.to_u8(), 0x03);
    assert_eq!(u8::from(FrameType::RateLimit), 0x03);
    for code in 0..=255u8 {
        let packet = PacketType::from_u8(code);
        assert_eq!(packet.is_some(), code == 0x81 || code == 0x41);
        if let Some(t) = packet {
            assert_eq!(t.to_u8(), code);
        }
        let frame = FrameType::from_u8(code);
        assert_eq!(frame.is_some(), (1..=3).contains(&code));
        if let Some(t) = frame {
            assert_eq!(t.to_u8(), code);
        }
    }
}

#[test]
fn big_endian_fields() {
    let mut out = vec![0xff];
    put_be16(&mut out, 0x0102);
    put_be32(&mut out, 0x03040506);
    put_be64(&mut out, 0x0708090a0b0c0d0e);
    assert_eq!(out, vec![0xff, 1, 2, 3, 4, 5, 6, 7, 8, 9, 10, 11, 12, 13, 14]);
    assert_eq!(get_be16(&out, 1), 0x0102);
    assert_eq!(get_be32(&out, 3), 0x03040506);
    assert_eq!(get_be64(&out, 7), 0x0708090a0b0c0d0e);
    for x in [0u64, 1, 0xff, 0x100, u32::MAX as u64, u64::MAX] {
        let mut out = vec![];
        put_be64(&mut out, x);
        assert_eq!(out, x.to_be_bytes());
        assert_eq!(get_be64(&out, 0), x);
    }
}

#[test]
fn headers_have_their_layout() {
    let mut out = vec![];
    let common = CommonPacketHeader {
        version: 1,
        packet_type: 0x41,
        header_length: 0x0102,
        body_length: 0x0304,
        packet_id: 0x05060708,
    };
    common.put_raw(&mut out);
    assert_eq!(out, vec![1, 0x41, 1, 2, 3, 4, 5, 6, 7, 8]);
    assert_eq!(CommonPacketHeader::raw_len(), 10);

    let mut out = vec![];
    CommonFrameHeader {
        frame_type: 2,
        frame_length: 15,
    }
    .put_raw(&mut out);
    assert_eq!(out, vec![2, 0, 15]);
    assert_eq!(CommonFrameHeader::raw_len(), 3);

    let request = GetChunkFrameHeader {
        chunk_id: 1,
        next_receive_offset: 2,
        receive_window_frames: 3,
    };
    let mut out = vec![];
    request.put_raw(&mut out);
    assert_eq!(out, vec![0, 0, 0, 1, 0, 0, 0, 2, 0, 0, 0, 3]);
    assert_eq!(GetChunkFrameHeader::raw_len(), 12);
    assert_eq!(request.get_frame_type(), FrameType::GetChunk);
    assert_eq!(GetChunkFrameHeader::try_parse(&out), Some(request));
    assert_eq!(GetChunkFrameHeader::try_parse(&out[..11]), None);

    let limit = RateLimitFrameHeader {
        desired_max_kbps: 0x01020304,
    };
    let mut out = vec![];
    limit.put_raw(&mut out);
    assert_eq!(out, vec![1, 2, 3, 4]);
    assert_eq!(RateLimitFrameHeader::raw_len(), 4);
    assert_eq!(limit.get_frame_type(), FrameType::RateLimit);
    assert_eq!(RateLimitFrameHeader::try_parse(&out), Some(limit));
    out.push(0);
    assert_eq!(RateLimitFrameHeader::try_parse(&out), None);

    let ticket = TicketPacketHeader {
        pubkey: [9u8; 32],
        timestamp_ms: 0x0102030405060708,
    };
    let mut out = vec![];
    ticket.put_raw(&mut out);
    assert_eq!(&out[..32], &[9u8; 32]);
    assert_eq!(&out[32..], &[1, 2, 3, 4, 5, 6, 7, 8]);
    assert_eq!(TicketPacketHeader::raw_len(), 40);
    assert_eq!(ticket.get_packet_type(), PacketType::Ticket);

    let mut out = vec![];
    DataPacketHeader {}.put_raw(&mut out);
    assert!(out.is_empty());
    assert_eq!(DataPacketHeader::raw_len(), 0);
    assert_eq!(DataPacketHeader {}.get_packet_type(), PacketType::Data);
}

#[test]
fn built_request_is_its_fifteen_bytes_and_no_payload() {
    let request = GetChunkFrameHeader {
        chunk_id: 8,
        next_receive_offset: 234,
        receive_window_frames: 600,
    };
    let built = request.build();
    assert_eq!(
        &built.header[..],
        &[0x02, 0x00, 0x0F, 0, 0, 0, 0x08, 0, 0, 0, 0xEA, 0, 0, 0x02, 0x58]
    );
    assert!(built.body.is_none());
}

#[test]
fn built_frame_keeps_its_payload_apart() {
    let request = GetChunkFrameHeader {
        chunk_id: 1,
        next_receive_offset: 2,
        receive_window_frames: 3,
    };
    assert_eq!(request.total_header_len(), 15);
    let built = request.build();
    assert_eq!(&built.header[..], &[2, 0, 15, 0, 0, 0, 1, 0, 0, 0, 2, 0, 0, 0, 3]);
    assert!(built.body.is_none());

    let payload = Bytes::from(vec![7u8; 100]);
    let frame = DataFrame::new(1, 2, [3u8; 12], payload.clone());
    assert_eq!(frame.total_header_len(), 23);
    let built = frame.build();
    assert_eq!(built.header.len(), 23);
    assert_eq!(&built.header[..3], &[1, 0, 123]);
    assert_eq!(built.body, Some(payload));
}

#[test]
fn parsed_packet_shows_its_common_header() {
    let ring = KeyRing::empty();
    let buffers = DataPacket::new(1, 2, [3u8; 12], vec![4u8; 50]).build(&ring, 0xabcdef01);
    // The common header, the specific header, the two buffers of the frame, the tail.
    assert_eq!(buffers.len(), 5);
    assert_eq!(buffers[0].len(), 10);
    assert_eq!(buffers[1].len(), 0);
    assert_eq!(buffers[2].len(), 23);
    assert_eq!(buffers[3].len(), 50);
    assert_eq!(buffers[4].len(), 8);
    let mut whole = vec![];
    for buffer in buffers.iter() {
        whole.extend_from_slice(buffer);
    }
    let parsed = parse_packet::<12>(Bytes::from(whole.clone()), &ring).unwrap();
    assert_eq!(parsed.pkt, whole);
    let header = parsed.get_common_packet_header();
    assert_eq!(header.version, 1);
    assert_eq!(header.packet_type, 0x81);
    assert_eq!(header.header_length, 10);
    assert_eq!(header.body_length, 73);
    assert_eq!(header.packet_id, 0xabcdef01);
    assert!(matches!(
        DataPacket::<12>::verification_type(),
        usync::protocol::wire::verify::PacketVerifyType::CRC64
    ));
}

#[test]
fn segments_must_be_aligned_and_within_the_file() {
    assert_eq!(check_segment(10_000, 4096, 0, 10_000), Ok(()));
    assert_eq!(check_segment(10_000, 4096, 4096, 5904), Ok(()));
    assert_eq!(check_segment(10_000, 4096, 8192, 0), Ok(()));
    assert_eq!(
        check_segment(10_000, 4096, 1, 10),
        Err(SegmentError::UnalignedOffset)
    );
    assert_eq!(
        check_segment(10_000, 4096, 4096, 5905),
        Err(SegmentError::ExceedsFile)
    );
    assert_eq!(
        check_segment(10_000, 4096, 12288, 0),
        Err(SegmentError::ExceedsFile)
    );
    assert_eq!(
        check_segment(u64::MAX, 1, u64::MAX, 1),
        Err(SegmentError::RangeOverflow)
    );
    // An offset that is not aligned is told first.
    assert_eq!(
        check_segment(10, 4096, 4097, 100),
        Err(SegmentError::UnalignedOffset)
    );
}

#[test]
fn chunk_index_tells_where_chunks_lie() {
    let total_length = (CHUNK_SIZE * 2 + 100) as u64;
    let config = FileConfig {
        file_name: String::from("file.bin"),
        total_length,
        total_hash: String::new(),
        chunks: make_plan(total_length)
            .into_iter()
            .enumerate()
            .map(|(i, (offset, length))| FileChunk {
                chunk_id: i as u32,
                hash: String::new(),
                offset,
                length,
            })
            .collect(),
    };
    let index = ChunkIndex::of_file(&config, 0, String::from("/srv/file.bin"));
    let path = String::from("/srv/file.bin");
    assert_eq!(index.get(0), Some((&path, 0, CHUNK_SIZE)));
    let (_, offset, length) = index.get(2).unwrap();
    assert_eq!(offset + length as u64, total_length);
    assert_eq!(index.get(3), None);
}

#[test]
fn buffers_flatten_in_order() {
    let parts = vec![
        Bytes::from("ab"),
        Bytes::new(),
        Bytes::from("cde"),
        Bytes::from("f"),
    ];
    assert_eq!(flatten(&parts), b"abcdef");
    assert_eq!(flatten(&vec![]), b"");
    let array: [u8; 3] = to_array(b"xyz");
    assert_eq!(array, [b'x', b'y', b'z']);
    let none: [u8; 0] = to_array(b"");
    assert_eq!(none, [0u8; 0]);
}
