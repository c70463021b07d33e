use usync::protocol::packets::{
    DataPacket, DataPacketError, DataPacketHeader, ParsedDataPacket, DATA_PACKET,
};

fn data_packet_to_bytes(packet: &DataPacket) -> Vec<u8> {
    let mut bytes =
        Vec::with_capacity(packet.header.len() + packet.data.len() + packet.crc64.len());
    bytes.extend_from_slice(&packet.header);
    bytes.extend_from_slice(&packet.data);
    bytes.extend_from_slice(&packet.crc64);
    bytes
}

#[test]
fn test_packet_roundtrip() {
    let header = DataPacketHeader::new(42, 1024, 0);
    let data = b"hello world!".to_vec();
    let packet = DataPacket::new(header.clone(), data.clone());

    let bytes = data_packet_to_bytes(&packet);
    let parsed = ParsedDataPacket::parse(&bytes).unwrap();

    assert_eq!(parsed.header.version, header.version);
    assert_eq!(parsed.header.packet_type, header.packet_type);
    assert_eq!(parsed.header.chunk_id, header.chunk_id);
    assert_eq!(parsed.header.chunk_size, header.chunk_size);
    assert_eq!(parsed.header.packet_id, header.packet_id);
    assert_eq!(parsed.data, &data[..]);
}

#[test]
fn test_packet_crc_mismatch() {
    let header = DataPacketHeader::new(1, 1, 1);
    let data = b"bad data".to_vec();
    let packet = DataPacket::new(header, data);

    let mut bytes = data_packet_to_bytes(&packet);
    let len = bytes.len();
    bytes[len - 1] ^= 0xFF;

    assert!(ParsedDataPacket::parse(&bytes).is_err());
}

#[test]
fn plain_packet_bytes_are_the_layout() {
    let header = DataPacketHeader::new(0x01020304, 0x05060708, 0x090a0b0c);
    assert_eq!(header.version, 1);
    assert_eq!(header.packet_type, DATA_PACKET);
    assert_eq!(header.data_len, 0);
    let packet = DataPacket::new(header, vec![0xaa, 0xbb, 0xcc]);
    let mut expected = vec![
        1, 0x81, 0, 3, 5, 6, 7, 8, 1, 2, 3, 4, 9, 10, 11, 12, 0xaa, 0xbb, 0xcc,
    ];
    let crc = crc::Crc::<u64>::new(&crc::CRC_64_ECMA_182).checksum(&expected);
    expected.extend_from_slice(&crc.to_be_bytes());
    assert_eq!(packet.to_bytes(), expected);
    assert_eq!(data_packet_to_bytes(&packet), expected);

    let parsed = ParsedDataPacket::parse(&expected).unwrap();
    assert_eq!(parsed.header.data_len, 3);
    assert_eq!(parsed.data, &[0xaa, 0xbb, 0xcc]);

    // Bytes after the checksum are ignored.
    expected.push(0);
    assert!(ParsedDataPacket::parse(&expected).is_ok());
}

#[test]
fn plain_packet_errors() {
    let packet = DataPacket::new(DataPacketHeader::new(1, 2, 3), vec![7u8; 10]);
    let bytes = packet.to_bytes();
    assert_eq!(
        ParsedDataPacket::parse(&bytes[..23]).unwrap_err(),
        DataPacketError::PacketTooShort
    );
    assert_eq!(
        ParsedDataPacket::parse(&bytes[..bytes.len() - 1]).unwrap_err(),
        DataPacketError::DataTooShort
    );
    let mut bad = bytes.clone();
    bad[20] ^= 1;
    assert_eq!(
        ParsedDataPacket::parse(&bad).unwrap_err(),
        DataPacketError::CrcMismatch
    );
    assert_eq!(DataPacketError::PacketTooShort.message(), "Packet too short");
    assert_eq!(DataPacketError::DataTooShort.message(), "Packet data too short");
    assert_eq!(DataPacketError::CrcMismatch.message(), "CRC mismatch");

    let empty = DataPacket::new(DataPacketHeader::new(1, 2, 3), vec![]);
    assert_eq!(empty.to_bytes().len(), 24);
    assert!(ParsedDataPacket::parse(&empty.to_bytes()).unwrap().data.is_empty());
}
