//! The plain data packet: a fixed header, a payload and a CRC-64, with no frames.
//!
//! The header is 16 bytes: version, packet type, payload length (2 bytes), chunk
//! size, chunk id and packet id (4 bytes each), all big-endian. The checksum covers
//! the header and the payload.
use vstd::prelude::*;

use crate::constants::VERSION;
use crate::protocol::wire::endian::{
    be16, be32, be64, from_be16, from_be32, from_be64, get_be16, get_be32, get_be64, put_be16,
    put_be32, put_be64,
};
use crate::protocol::wire::buffer::to_array;
use crate::protocol::wire::verify::{check_crc64, crc64_ecma_182};

verus! {

/// The packet type byte of a data packet.
pub const DATA_PACKET: u8 = 0x81;

/// Length of the header.
pub const HEADER_LEN: usize = 16;

/// Length of the checksum.
pub const CRC_LEN: usize = 8;

/// The header of a plain data packet.
#[derive(Debug, Clone, Copy, PartialEq, Eq)]
pub struct DataPacketHeader {
    pub version: u8,
    pub packet_type: u8,
    pub data_len: u16,
    pub chunk_size: u32,
    pub chunk_id: u32,
    pub packet_id: u32,
}

impl DataPacketHeader {
    /// The header of a packet of chunk `chunk_id`, with the id `packet_id`. The
    /// payload length is filled in when the packet is made.
    pub fn new(chunk_id: u32, chunk_size: u32, packet_id: u32) -> (header: Self)
        ensures
            header == (DataPacketHeader {
                version: VERSION,
                packet_type: DATA_PACKET,
                data_len: 0,
                chunk_size,
                chunk_id,
                packet_id,
            }),
    {
        DataPacketHeader {
            version: VERSION,
            packet_type: DATA_PACKET,
            data_len: 0,
            chunk_size,
            chunk_id,
            packet_id,
        }
    }

    /// The 16 bytes of the header.
    pub open spec fn raw(self) -> Seq<u8> {
        seq![self.version, self.packet_type] + be16(self.data_len) + be32(self.chunk_size) + be32(
            self.chunk_id,
        ) + be32(self.packet_id)
    }

    /// The header that 16 bytes spell.
    pub open spec fn of_raw(bytes: Seq<u8>) -> DataPacketHeader
        recommends
            bytes.len() >= HEADER_LEN,
    {
        DataPacketHeader {
            version: bytes[0],
            packet_type: bytes[1],
            data_len: from_be16(bytes.subrange(2, 4)),
            chunk_size: from_be32(bytes.subrange(4, 8)),
            chunk_id: from_be32(bytes.subrange(8, 12)),
            packet_id: from_be32(bytes.subrange(12, 16)),
        }
    }

    /// Reading a header back from its bytes gives the header.
    pub proof fn lemma_of_raw(self)
        ensures
            self.raw().len() == HEADER_LEN,
            Self::of_raw(self.raw()) == self,
    {
        let raw = self.raw();
        crate::protocol::wire::endian::lemma_be16_decode_encode(self.data_len);
        crate::protocol::wire::endian::lemma_be32_decode_encode(self.chunk_size);
        crate::protocol::wire::endian::lemma_be32_decode_encode(self.chunk_id);
        crate::protocol::wire::endian::lemma_be32_decode_encode(self.packet_id);
        assert(raw.subrange(2, 4) =~= be16(self.data_len));
        assert(raw.subrange(4, 8) =~= be32(self.chunk_size));
        assert(raw.subrange(8, 12) =~= be32(self.chunk_id));
        assert(raw.subrange(12, 16) =~= be32(self.packet_id));
        assert(raw[0] == self.version);
        assert(raw[1] == self.packet_type);
    }
}

/// A plain data packet made ready for gathered output.
#[derive(Debug, Clone)]
pub struct DataPacket {
    pub header: Vec<u8>,
    pub data: Vec<u8>,
    /// The checksum of header and payload, big-endian.
    pub crc64: [u8; 8],
}

impl DataPacket {
    /// The packet of `data` under `header`, whose payload length is set to that of
    /// `data`, which must fit it.
    pub fn new(header: DataPacketHeader, data: Vec<u8>) -> (packet: Self)
        requires
            data@.len() <= u16::MAX,
        ensures
            packet.header@ == (DataPacketHeader { data_len: data@.len() as u16, ..header }).raw(),
            packet.data@ == data@,
            packet.crc64@ == be64(crc64_ecma_182(packet.header@ + data@)),
    {
        let mut header = header;
        header.data_len = data.len() as u16;
        let mut header_buf: Vec<u8> = Vec::with_capacity(HEADER_LEN);
        header_buf.push(header.version);
        header_buf.push(header.packet_type);
        put_be16(&mut header_buf, header.data_len);
        put_be32(&mut header_buf, header.chunk_size);
        put_be32(&mut header_buf, header.chunk_id);
        put_be32(&mut header_buf, header.packet_id);
        assert(header_buf@ =~= header.raw());

        let mut whole: Vec<u8> = Vec::new();
        whole.extend_from_slice(header_buf.as_slice());
        whole.extend_from_slice(data.as_slice());
        assert(whole@ =~= header_buf@ + data@);
        let crc = check_crc64(whole.as_slice());
        let mut tail: Vec<u8> = Vec::new();
        put_be64(&mut tail, crc);
        assert(tail@ =~= be64(crc));
        proof {
            crate::protocol::wire::endian::lemma_be64_decode_encode(crc);
        }
        DataPacket { header: header_buf, data, crc64: to_array(tail.as_slice()) }
    }

    /// The bytes of the packet on the wire: header, payload, checksum.
    pub open spec fn wire(&self) -> Seq<u8> {
        self.header@ + self.data@ + self.crc64@
    }

    /// The bytes of the packet on the wire, in one vector.
    pub fn to_bytes(&self) -> (bytes: Vec<u8>)
        ensures
            bytes@ == self.wire(),
    {
        let mut bytes: Vec<u8> = Vec::new();
        bytes.extend_from_slice(self.header.as_slice());
        bytes.extend_from_slice(self.data.as_slice());
        bytes.extend_from_slice(self.crc64.as_slice());
        assert(bytes@ =~= self.wire());
        bytes
    }
}

/// Why bytes are no plain data packet.
#[derive(Debug, Clone, Copy, PartialEq, Eq)]
pub enum DataPacketError {
    /// The input is shorter than a header and a checksum.
    PacketTooShort,
    /// The input is shorter than the payload length in the header says.
    DataTooShort,
    /// The checksum does not match header and payload.
    CrcMismatch,
}

impl DataPacketError {
    /// The error in words.
    pub fn message(&self) -> (text: String)
        ensures
            text@ == (match self {
                DataPacketError::PacketTooShort => "Packet too short"@,
                DataPacketError::DataTooShort => "Packet data too short"@,
                DataPacketError::CrcMismatch => "CRC mismatch"@,
            }),
    {
        match self {
            DataPacketError::PacketTooShort => "Packet too short".to_string(),
            DataPacketError::DataTooShort => "Packet data too short".to_string(),
            DataPacketError::CrcMismatch => "CRC mismatch".to_string(),
        }
    }
}

/// A plain data packet as received: its header and its payload, which borrows from
/// the input.
#[derive(Debug)]
pub struct ParsedDataPacket<'a> {
    pub header: DataPacketHeader,
    pub data: &'a [u8],
}

/// What bytes say as a plain data packet: the header and the payload, or why they
/// are none. Bytes after the checksum are ignored.
pub open spec fn parse_spec(input: Seq<u8>) -> Result<
    (DataPacketHeader, Seq<u8>),
    DataPacketError,
> {
    if input.len() < HEADER_LEN + CRC_LEN {
        Err(DataPacketError::PacketTooShort)
    } else {
        let header = DataPacketHeader::of_raw(input);
        let data_end = HEADER_LEN + header.data_len;
        if input.len() < data_end + CRC_LEN {
            Err(DataPacketError::DataTooShort)
        } else if from_be64(input.subrange(data_end, data_end + CRC_LEN)) != crc64_ecma_182(
            input.subrange(0, data_end),
        ) {
            Err(DataPacketError::CrcMismatch)
        } else {
            Ok((header, input.subrange(HEADER_LEN as int, data_end)))
        }
    }
}

impl<'a> ParsedDataPacket<'a> {
    /// Parses a plain data packet and checks its checksum.
    pub fn parse(input: &'a [u8]) -> (r: Result<Self, DataPacketError>)
        ensures
            match r {
                Ok(packet) => parse_spec(input@) == Ok::<
                    (DataPacketHeader, Seq<u8>),
                    DataPacketError,
                >((packet.header, packet.data@)),
                Err(e) => parse_spec(input@) == Err::<(DataPacketHeader, Seq<u8>), DataPacketError>(
                    e,
                ),
            },
    {
        if input.len() < HEADER_LEN + CRC_LEN {
            return Err(DataPacketError::PacketTooShort);
        }
        let header = DataPacketHeader {
            version: input[0],
            packet_type: input[1],
            data_len: get_be16(input, 2),
            chunk_size: get_be32(input, 4),
            chunk_id: get_be32(input, 8),
            packet_id: get_be32(input, 12),
        };
        let data_end: usize = HEADER_LEN + header.data_len as usize;
        if input.len() - CRC_LEN < data_end {
            return Err(DataPacketError::DataTooShort);
        }
        let data = vstd::slice::slice_subrange(input, HEADER_LEN, data_end);
        let covered = vstd::slice::slice_subrange(input, 0, data_end);
        if get_be64(input, data_end) != check_crc64(covered) {
            return Err(DataPacketError::CrcMismatch);
        }
        Ok(ParsedDataPacket { header, data })
    }
}

/// A packet that was made parses back to its header, with the payload length filled
/// in, and its payload.
pub proof fn lemma_round_trip(header: DataPacketHeader, data: Seq<u8>)
    requires
        data.len() <= u16::MAX,
    ensures
        parse_spec(
            (DataPacketHeader { data_len: data.len() as u16, ..header }).raw() + data + be64(
                crc64_ecma_182(
                    (DataPacketHeader { data_len: data.len() as u16, ..header }).raw() + data,
                ),
            ),
        ) == Ok::<(DataPacketHeader, Seq<u8>), DataPacketError>(
            (DataPacketHeader { data_len: data.len() as u16, ..header }, data),
        ),
{
    let filled = DataPacketHeader { data_len: data.len() as u16, ..header };
    let covered = filled.raw() + data;
    let crc = crc64_ecma_182(covered);
    let input = covered + be64(crc);
    filled.lemma_of_raw();
    crate::protocol::wire::endian::lemma_be64_decode_encode(crc);
    let data_end = HEADER_LEN + data.len();
    assert(input.subrange(2, 4) =~= filled.raw().subrange(2, 4));
    assert(input.subrange(4, 8) =~= filled.raw().subrange(4, 8));
    assert(input.subrange(8, 12) =~= filled.raw().subrange(8, 12));
    assert(input.subrange(12, 16) =~= filled.raw().subrange(12, 16));
    assert(input[0] == filled.raw()[0]);
    assert(input[1] == filled.raw()[1]);
    assert(DataPacketHeader::of_raw(input) == filled);
    assert(input.subrange(0, data_end as int) =~= covered);
    assert(input.subrange(data_end as int, data_end + CRC_LEN) =~= be64(crc));
    assert(input.subrange(HEADER_LEN as int, data_end as int) =~= data);
}

} // verus!
