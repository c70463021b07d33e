use std::collections::HashMap;

use bytes::Bytes;
use usync::constants::{DEFAULT_FRAME_LEN, MTU, TRANSMISSION_INFO_LENGTH};
use usync::protocol::key_ring::KeyRing;
use usync::protocol::wire::encoding::{parse_packet, PacketExt, ParseError};
use usync::protocol::wire::frames::{GetChunkFrameHeader, ParsedFrameVariant};
use usync::protocol::wire::packets::{
    current_timestamp_ms, DataPacket, ParsedPacketVariant, TicketPacket,
};
use usync::protocol::wire::verify::PacketVerificationError;

const PRIVATE_KEY: &str = "9d61b19deffd5a60ba844af492ec2cc44449c5697b326919703bac031cae7f60";
const PUBLIC_KEY: &str = "d75a980182b10ab7d54bfed3c964073a0ee172f3daa62325af021a68f707511a";
const OTHER_PRIVATE_KEY: &str = "4ccd089b28ff96da9db6c346ec114e0f5b8a319f35aba624da8cf6ed4fb8a6fb";

fn mock_ring() -> KeyRing {
    KeyRing::try_new(
        vec![String::from(PUBLIC_KEY)],
        Some(String::from(PRIVATE_KEY)),
    )
    .unwrap()
}

fn build_into_bytes(vec: Vec<Bytes>) -> Bytes {
    let mut total_packet = Vec::new();
    for item in vec.iter() {
        total_packet.extend_from_slice(item);
    }
    Bytes::from(total_packet)
}

#[test]
fn encoding_build_parse_data_packet() {
    let ring = mock_ring();

    let mock_data: Vec<u8> = vec![88; DEFAULT_FRAME_LEN];
    let data_packet = DataPacket::new(
        19260817,
        85213,
        [7u8; TRANSMISSION_INFO_LENGTH],
        mock_data.clone(),
    );
    assert!(data_packet.fits_mtu());
    let built = data_packet.build(&ring, 0);

    let total_packet = build_into_bytes(built);

    assert_eq!(
        DEFAULT_FRAME_LEN % 16,
        0,
        "Default frame len should be 16-aligned."
    );

    assert!(total_packet.len() <= MTU);

    let parsed_packet = parse_packet::<TRANSMISSION_INFO_LENGTH>(total_packet, &ring).unwrap();

    if let ParsedFrameVariant::Data(data_frame) = &parsed_packet.frames[0] {
        assert_eq!(19260817, data_frame.chunk_id);
        assert_eq!(85213, data_frame.frame_offset);
        assert_eq!([7u8; TRANSMISSION_INFO_LENGTH], data_frame.transmission_info);
        assert_eq!(mock_data, data_frame.data);
    } else {
        unreachable!()
    }
    assert_eq!(parsed_packet.frames.len(), 1);
}

#[test]
fn build_parse_ticket_packet() {
    let ring = mock_ring();

    let start_time = current_timestamp_ms();

    let packet = TicketPacket::new(&ring)
        .set_rate_limit(80000)
        .set_get_chunk(8, 75, 400) // Should be shadowed!
        .set_get_chunk(17, 2334, 800)
        .set_get_chunk(8, 234, 600)
        .build(&ring, 1);

    let total_packet = build_into_bytes(packet);
    assert!(total_packet.len() <= MTU);

    let parsed_packet = parse_packet::<TRANSMISSION_INFO_LENGTH>(total_packet, &ring).unwrap();

    let current_time = current_timestamp_ms();

    if let ParsedPacketVariant::TicketPacket {
        pub_key,
        timestamp_ms,
    } = parsed_packet.specific_packet_header
    {
        assert_eq!(*pub_key, ring.derive_public_key().unwrap());
        assert!(start_time <= timestamp_ms && timestamp_ms <= current_time);
    } else {
        unreachable!();
    }

    let mut expected = HashMap::new();
    expected.insert(8, (234, 600));
    expected.insert(17, (2334, 800));
    let mut rate_limit = None;

    for frame in parsed_packet.frames {
        match frame {
            ParsedFrameVariant::RateLimit(header) => {
                assert!(rate_limit.replace(header.desired_max_kbps).is_none())
            }
            ParsedFrameVariant::GetChunk(GetChunkFrameHeader {
                chunk_id,
                next_receive_offset,
                receive_window_frames,
            }) => {
                let expected_entry = expected.remove(&chunk_id).unwrap();
                assert_eq!(expected_entry.0, next_receive_offset);
                assert_eq!(expected_entry.1, receive_window_frames);
            }
            _ => unreachable!(),
        }
    }

    assert_eq!(expected.len(), 0);
    assert_eq!(rate_limit, Some(80000));
}

#[test]
fn data_packet_bytes_are_the_layout() {
    let ring = KeyRing::empty();
    let packet = DataPacket::new(0x01020304, 0x0a0b0c0d, [9u8; 12], vec![0xaa, 0xbb]);
    let bytes = build_into_bytes(packet.build(&ring, 0x11223344));
    let mut expected: Vec<u8> = vec![
        1, 0x81, 0, 10, 0, 25, 0x11, 0x22, 0x33, 0x44, // common packet header
        0x01, 0, 25, // common frame header
        1, 2, 3, 4, 0x0a, 0x0b, 0x0c, 0x0d, // chunk id, frame offset
    ];
    expected.extend_from_slice(&[9u8; 12]);
    expected.extend_from_slice(&[0xaa, 0xbb]);
    let crc = crc::Crc::<u64>::new(&crc::CRC_64_ECMA_182).checksum(&expected);
    expected.extend_from_slice(&crc.to_be_bytes());
    assert_eq!(&bytes[..], &expected[..]);
}

#[test]
fn ticket_bytes_are_the_layout() {
    let ring = mock_ring();
    let key = ring.derive_public_key().unwrap();
    let bytes = build_into_bytes(
        TicketPacket::with_header(key, 0x0102030405060708)
            .set_get_chunk(5, 6, 7)
            .set_rate_limit(0x00010000)
            .build(&ring, 3),
    );
    let mut expected: Vec<u8> = vec![1, 0x41, 0, 50, 0, 22, 0, 0, 0, 3];
    expected.extend_from_slice(&key);
    expected.extend_from_slice(&[1, 2, 3, 4, 5, 6, 7, 8]);
    expected.extend_from_slice(&[0x03, 0, 7, 0, 1, 0, 0]);
    expected.extend_from_slice(&[0x02, 0, 15, 0, 0, 0, 5, 0, 0, 0, 6, 0, 0, 0, 7]);
    assert_eq!(&bytes[..expected.len()], &expected[..]);
    assert_eq!(bytes.len(), expected.len() + 64);
}

#[test]
fn data_packet_of_largest_payload_round_trips() {
    let ring = KeyRing::empty();
    let payload: Vec<u8> = (0..1449u32).map(|i| (i % 251) as u8).collect();
    let packet = DataPacket::new(u32::MAX, 0, [0u8; 12], payload.clone());
    assert!(packet.fits_mtu());
    let bytes = build_into_bytes(packet.build(&ring, u32::MAX));
    assert_eq!(bytes.len(), MTU);
    let parsed = parse_packet::<12>(bytes, &ring).unwrap();
    match &parsed.frames[0] {
        ParsedFrameVariant::Data(frame) => {
            assert_eq!(frame.chunk_id, u32::MAX);
            assert_eq!(frame.frame_offset, 0);
            assert_eq!(frame.data, payload);
        }
        _ => unreachable!(),
    }
}

#[test]
fn data_packet_over_the_mtu_does_not_fit() {
    let packet = DataPacket::new(1, 2, [0u8; 12], vec![0u8; 1450]);
    assert!(!packet.fits_mtu());
}

#[test]
fn ticket_fits_ninety_one_requests() {
    let ring = mock_ring();
    let mut ticket = TicketPacket::new(&ring).set_rate_limit(1);
    for id in 0..91 {
        ticket = ticket.set_get_chunk(id, 0, 8192);
    }
    assert!(ticket.fits_mtu());
    ticket = ticket.set_get_chunk(91, 0, 8192);
    assert!(!ticket.fits_mtu());
    ticket = ticket.set_get_chunk(5, 9, 9);
    assert!(!ticket.fits_mtu());
}

fn data_packet_bytes() -> Vec<u8> {
    let ring = KeyRing::empty();
    build_into_bytes(DataPacket::new(3, 4, [1u8; 12], vec![5u8; 100]).build(&ring, 9)).to_vec()
}

fn parse_error(bytes: Vec<u8>) -> ParseError {
    parse_packet::<12>(Bytes::from(bytes), &KeyRing::empty()).unwrap_err()
}

#[test]
fn flipped_bits_fail_verification() {
    let good = data_packet_bytes();
    assert!(parse_packet::<12>(Bytes::from(good.clone()), &KeyRing::empty()).is_ok());
    for at in [6usize, 9, 13, 20, 40, good.len() - 9] {
        for bit in 0..8 {
            let mut bad = good.clone();
            bad[at] ^= 1 << bit;
            assert_eq!(
                parse_error(bad),
                ParseError::Verification(PacketVerificationError::CorruptContent)
            );
        }
    }
}

#[test]
fn parse_errors() {
    let good = data_packet_bytes();

    assert_eq!(parse_error(good[..9].to_vec()), ParseError::PacketTooShort);

    let mut bad = good.clone();
    bad[0] = 2;
    assert_eq!(parse_error(bad), ParseError::UnsupportedVersion(2));

    let mut bad = good.clone();
    bad.truncate(good.len() - 9);
    assert_eq!(parse_error(bad), ParseError::PacketTooShort);

    let mut bad = good.clone();
    bad[3] = 9;
    assert_eq!(parse_error(bad), ParseError::InconsistentFields);

    let mut bad = good.clone();
    bad[1] = 0x42;
    assert_eq!(parse_error(bad), ParseError::UnsupportedPacketType(0x42));

    // A data packet has no specific header: one byte of it is one too many.
    let mut bad = good.clone();
    bad[3] = 11;
    bad[5] -= 1;
    assert_eq!(parse_error(bad), ParseError::FailedToParsePacketHeader);

    let mut bad = good.clone();
    bad.pop();
    assert_eq!(
        parse_error(bad),
        ParseError::Verification(PacketVerificationError::IncorrectLength)
    );

    let mut bad = good.clone();
    let last = bad.len() - 1;
    bad[last] ^= 0xff;
    assert_eq!(
        parse_error(bad),
        ParseError::Verification(PacketVerificationError::CorruptContent)
    );
}

fn with_crc(mut prefix: Vec<u8>) -> Vec<u8> {
    let crc = crc::Crc::<u64>::new(&crc::CRC_64_ECMA_182).checksum(&prefix);
    prefix.extend_from_slice(&crc.to_be_bytes());
    prefix
}

#[test]
fn frame_errors() {
    // A body of two bytes ends within the common frame header.
    assert_eq!(
        parse_error(with_crc(vec![1, 0x81, 0, 10, 0, 2, 0, 0, 0, 0, 1, 0])),
        ParseError::BodyTooShort
    );
    // A frame that says it is shorter than its own header.
    assert_eq!(
        parse_error(with_crc(vec![1, 0x81, 0, 10, 0, 3, 0, 0, 0, 0, 2, 0, 2])),
        ParseError::BodyTooShort
    );
    // A frame that says it reaches past the end of the body.
    assert_eq!(
        parse_error(with_crc(vec![1, 0x81, 0, 10, 0, 3, 0, 0, 0, 0, 2, 0, 15])),
        ParseError::BodyTooShort
    );
    // A frame of no known type.
    assert_eq!(
        parse_error(with_crc(vec![1, 0x81, 0, 10, 0, 3, 0, 0, 0, 0, 9, 0, 3])),
        ParseError::UnsupportedFrameType(9)
    );
    // A rate limit of five bytes.
    assert_eq!(
        parse_error(with_crc(vec![
            1, 0x81, 0, 10, 0, 8, 0, 0, 0, 0, 3, 0, 8, 0, 0, 0, 1, 0
        ])),
        ParseError::UnsupportedFrameType(3)
    );
    // A data frame too short for its header.
    assert_eq!(
        parse_error(with_crc(vec![
            1, 0x81, 0, 10, 0, 8, 0, 0, 0, 0, 1, 0, 8, 0, 0, 0, 1, 0
        ])),
        ParseError::UnsupportedFrameType(1)
    );
    // An empty body holds no frame and is no error.
    let parsed = parse_packet::<12>(
        Bytes::from(with_crc(vec![1, 0x81, 0, 10, 0, 0, 0, 0, 0, 0])),
        &KeyRing::empty(),
    )
    .unwrap();
    assert!(parsed.frames.is_empty());
    assert!(matches!(
        parsed.specific_packet_header,
        ParsedPacketVariant::DataPacket()
    ));
}

#[test]
fn packet_over_the_mtu_is_too_long() {
    // A data packet with a payload of 1450 bytes: 1491 bytes in all.
    let mut prefix = vec![1, 0x81, 0, 10, 0x05, 0xc1, 0, 0, 0, 0, 1, 0x05, 0xc1];
    prefix.extend_from_slice(&[0u8; 1470]);
    let bytes = with_crc(prefix);
    assert_eq!(bytes.len(), MTU + 1);
    assert_eq!(
        parse_error(bytes.clone()),
        ParseError::Verification(PacketVerificationError::PacketTooLong)
    );
    // One byte less fits.
    let mut prefix = vec![1, 0x81, 0, 10, 0x05, 0xc0, 0, 0, 0, 0, 1, 0x05, 0xc0];
    prefix.extend_from_slice(&[0u8; 1469]);
    let bytes = with_crc(prefix);
    assert_eq!(bytes.len(), MTU);
    assert!(parse_packet::<12>(Bytes::from(bytes), &KeyRing::empty()).is_ok());
}

#[test]
fn the_structure_is_looked_at_before_the_tail() {
    // A frame of no known type and a checksum that does not match.
    let mut bytes = with_crc(vec![1, 0x81, 0, 10, 0, 3, 0, 0, 0, 0, 9, 0, 3]);
    let last = bytes.len() - 1;
    bytes[last] ^= 1;
    assert_eq!(parse_error(bytes), ParseError::UnsupportedFrameType(9));
    // A body that ends within a frame and no tail at all.
    assert_eq!(
        parse_error(vec![1, 0x81, 0, 10, 0, 2, 0, 0, 0, 0, 1, 0]),
        ParseError::BodyTooShort
    );
}

#[test]
fn ticket_of_unknown_key_is_refused() {
    let signer = KeyRing::try_new(vec![], Some(String::from(OTHER_PRIVATE_KEY))).unwrap();
    let bytes = build_into_bytes(
        TicketPacket::new(&signer)
            .set_get_chunk(1, 2, 3)
            .build(&signer, 0),
    );
    let served = parse_packet::<12>(bytes.clone(), &mock_ring());
    assert_eq!(
        served.unwrap_err(),
        ParseError::Verification(PacketVerificationError::UnknownPublicKey)
    );
    let key = signer.derive_public_key().unwrap();
    let ring = mock_ring().add_public_key(key);
    assert!(parse_packet::<12>(bytes, &ring).is_ok());
}

#[test]
fn ticket_with_replaced_key_or_content_is_refused() {
    let ring = mock_ring();
    let other = KeyRing::try_new(vec![], Some(String::from(OTHER_PRIVATE_KEY))).unwrap();
    let other_key = other.derive_public_key().unwrap();
    let good = build_into_bytes(
        TicketPacket::new(&ring)
            .set_rate_limit(5)
            .set_get_chunk(1, 2, 3)
            .build(&ring, 0),
    )
    .to_vec();

    // The key replaced by one that is not authorized.
    let mut bad = good.clone();
    bad[10..42].copy_from_slice(&other_key);
    assert_eq!(
        parse_packet::<12>(Bytes::from(bad.clone()), &ring).unwrap_err(),
        ParseError::Verification(PacketVerificationError::UnknownPublicKey)
    );
    // The same, with that key authorized: the signature is another's.
    let both = mock_ring().add_public_key(other_key);
    assert_eq!(
        parse_packet::<12>(Bytes::from(bad), &both).unwrap_err(),
        ParseError::Verification(PacketVerificationError::IncorrectSign)
    );
    // One bit of the content flipped.
    for at in [6usize, 45, 55, 60, 70] {
        let mut bad = good.clone();
        bad[at] ^= 0x10;
        assert_eq!(
            parse_packet::<12>(Bytes::from(bad), &ring).unwrap_err(),
            ParseError::Verification(PacketVerificationError::IncorrectSign)
        );
    }
    // The signature cut short.
    let mut bad = good.clone();
    bad.pop();
    assert_eq!(
        parse_packet::<12>(Bytes::from(bad), &ring).unwrap_err(),
        ParseError::Verification(PacketVerificationError::IncorrectLength)
    );
    // The ticket's specific header cut short.
    let mut bad = good.clone();
    bad[3] = 49;
    bad[5] += 1;
    assert_eq!(
        parse_packet::<12>(Bytes::from(bad), &ring).unwrap_err(),
        ParseError::FailedToParsePacketHeader
    );
}
