//! The three types of frame.
use bytes::Bytes;
use vstd::prelude::*;

use crate::protocol::wire::buffer::{
    buffer_as_slice, buffer_len, buffer_slice, contents, to_array,
};
use crate::protocol::wire::endian::{be32, from_be32, get_be32, put_be32};
use crate::protocol::wire::{Frame, RawParts, SpecificFrameHeader};

verus! {

/// The type of a frame, which its first byte tells.
#[derive(Debug, Clone, Copy, PartialEq, Eq)]
pub enum FrameType {
    Data,
    GetChunk,
    RateLimit,
}

impl FrameType {
    /// The byte that stands for the type on the wire.
    pub open spec fn code(self) -> u8 {
        match self {
            FrameType::Data => 0x01,
            FrameType::GetChunk => 0x02,
            FrameType::RateLimit => 0x03,
        }
    }

    /// The type that a byte stands for, if any.
    pub open spec fn of_code(code: u8) -> Option<FrameType> {
        if code == 0x01 {
            Some(FrameType::Data)
        } else if code == 0x02 {
            Some(FrameType::GetChunk)
        } else if code == 0x03 {
            Some(FrameType::RateLimit)
        } else {
            None
        }
    }

    /// The byte that stands for the type on the wire.
    pub fn to_u8(self) -> (code: u8)
        ensures
            code == self.code(),
    {
        match self {
            FrameType::Data => 0x01,
            FrameType::GetChunk => 0x02,
            FrameType::RateLimit => 0x03,
        }
    }

    /// The type that a byte stands for, if any.
    pub fn from_u8(code: u8) -> (t: Option<FrameType>)
        ensures
            t == Self::of_code(code),
    {
        if code == 0x01 {
            Some(FrameType::Data)
        } else if code == 0x02 {
            Some(FrameType::GetChunk)
        } else if code == 0x03 {
            Some(FrameType::RateLimit)
        } else {
            None
        }
    }
}

impl From<FrameType> for u8 {
    fn from(frame_type: FrameType) -> (code: u8) {
        frame_type.to_u8()
    }
}

impl vstd::std_specs::convert::FromSpecImpl<FrameType> for u8 {
    open spec fn obeys_from_spec() -> bool {
        true
    }

    open spec fn from_spec(frame_type: FrameType) -> u8 {
        frame_type.code()
    }
}

/// The specific header of a data frame.
#[derive(Debug, Clone, Copy)]
pub struct DataFrameHeader<const INFO_LENGTH: usize> {
    pub chunk_id: u32,
    pub frame_offset: u32,
    /// What a decoder needs to know before it can take the first symbol.
    pub transmission_info: [u8; INFO_LENGTH],
}

impl<const INFO_LENGTH: usize> RawParts for DataFrameHeader<INFO_LENGTH> {
    open spec fn raw(&self) -> Seq<u8> {
        be32(self.chunk_id) + be32(self.frame_offset) + self.transmission_info@
    }

    open spec fn spec_raw_len() -> nat {
        8 + INFO_LENGTH as nat
    }

    proof fn lemma_raw_len(&self) {
    }

    fn raw_len() -> (n: usize) {
        8 + INFO_LENGTH
    }

    fn put_raw(&self, out: &mut Vec<u8>) {
        let ghost before = out@;
        put_be32(out, self.chunk_id);
        put_be32(out, self.frame_offset);
        let ghost middle = out@;
        out.extend_from_slice(self.transmission_info.as_slice());
        assert(out@ =~= middle + self.transmission_info@);
        assert(out@ =~= before + self.raw());
    }
}

impl<const INFO_LENGTH: usize> SpecificFrameHeader for DataFrameHeader<INFO_LENGTH> {
    open spec fn spec_frame_type(&self) -> FrameType {
        FrameType::Data
    }

    fn get_frame_type(&self) -> (t: FrameType) {
        FrameType::Data
    }
}

/// A data frame to send: one symbol of one chunk.
#[derive(Debug)]
pub struct DataFrame<const INFO_LENGTH: usize> {
    header: DataFrameHeader<INFO_LENGTH>,
    data: Bytes,
}

/// What a data frame says.
pub struct DataFrameView {
    pub chunk_id: u32,
    pub frame_offset: u32,
    pub transmission_info: Seq<u8>,
    pub data: Seq<u8>,
}

/// A data frame as received.
#[derive(Debug)]
pub struct ParsedDataFrame<const INFO_LENGTH: usize> {
    pub chunk_id: u32,
    pub frame_offset: u32,
    pub transmission_info: [u8; INFO_LENGTH],
    pub data: Bytes,
}

impl<const INFO_LENGTH: usize> View for DataFrame<INFO_LENGTH> {
    type V = DataFrameView;

    closed spec fn view(&self) -> DataFrameView {
        DataFrameView {
            chunk_id: self.header.chunk_id,
            frame_offset: self.header.frame_offset,
            transmission_info: self.header.transmission_info@,
            data: contents(self.data),
        }
    }
}

impl<const INFO_LENGTH: usize> View for ParsedDataFrame<INFO_LENGTH> {
    type V = DataFrameView;

    open spec fn view(&self) -> DataFrameView {
        DataFrameView {
            chunk_id: self.chunk_id,
            frame_offset: self.frame_offset,
            transmission_info: self.transmission_info@,
            data: contents(self.data),
        }
    }
}

/// What the content of a data frame says, where the transmission info takes
/// `info_length` bytes: the specific header, then the symbol.
pub open spec fn parse_data_content(info_length: nat, content: Seq<u8>) -> Option<DataFrameView> {
    if content.len() >= 8 + info_length {
        Some(
            DataFrameView {
                chunk_id: from_be32(content.subrange(0, 4)),
                frame_offset: from_be32(content.subrange(4, 8)),
                transmission_info: content.subrange(8, 8 + info_length as int),
                data: content.subrange(8 + info_length as int, content.len() as int),
            },
        )
    } else {
        None
    }
}

impl<const INFO_LENGTH: usize> DataFrame<INFO_LENGTH> {
    /// The data frame that carries the symbol `data`, the `frame_offset`-th of chunk
    /// `chunk_id`.
    pub fn new(
        chunk_id: u32,
        frame_offset: u32,
        transmission_info: [u8; INFO_LENGTH],
        data: Bytes,
    ) -> (frame: Self)
        ensures
            frame@ == (DataFrameView {
                chunk_id,
                frame_offset,
                transmission_info: transmission_info@,
                data: contents(data),
            }),
    {
        Self { header: DataFrameHeader { chunk_id, frame_offset, transmission_info }, data }
    }

    /// What the content of a data frame says.
    pub open spec fn parse_spec(content: Seq<u8>) -> Option<DataFrameView> {
        parse_data_content(INFO_LENGTH as nat, content)
    }

    /// Parses the content of a data frame, which is the bytes `start..end` of
    /// `packet`. The symbol shares the packet's storage.
    pub fn try_parse(packet: &Bytes, start: usize, end: usize) -> (r: Option<
        ParsedDataFrame<INFO_LENGTH>,
    >)
        requires
            start <= end <= contents(*packet).len(),
        ensures
            r is Some <==> Self::parse_spec(
                contents(*packet).subrange(start as int, end as int),
            ) is Some,
            r matches Some(f) ==> Some(f@) == Self::parse_spec(
                contents(*packet).subrange(start as int, end as int),
            ),
    {
        let len: usize = end - start;
        if len < 8 || len - 8 < INFO_LENGTH {
            return None;
        }
        let data = buffer_as_slice(packet);
        let ghost content = contents(*packet).subrange(start as int, end as int);
        let chunk_id = get_be32(data, start);
        let frame_offset = get_be32(data, start + 4);
        let info_end: usize = start + 8 + INFO_LENGTH;
        let info_slice = vstd::slice::slice_subrange(data, start + 8, info_end);
        let transmission_info: [u8; INFO_LENGTH] = to_array(info_slice);
        let payload = buffer_slice(packet, info_end, end);
        proof {
            assert(content.subrange(0, 4) =~= data@.subrange(start as int, start + 4));
            assert(content.subrange(4, 8) =~= data@.subrange(start + 4, start + 8));
            assert(content.subrange(8, 8 + INFO_LENGTH as int) =~= info_slice@);
            assert(content.subrange(8 + INFO_LENGTH as int, content.len() as int) =~= contents(
                payload,
            ));
        }
        Some(ParsedDataFrame { chunk_id, frame_offset, transmission_info, data: payload })
    }
}

impl<const INFO_LENGTH: usize> Frame for DataFrame<INFO_LENGTH> {
    type Header = DataFrameHeader<INFO_LENGTH>;

    closed spec fn spec_header(&self) -> DataFrameHeader<INFO_LENGTH> {
        self.header
    }

    closed spec fn spec_body(&self) -> Option<Seq<u8>> {
        Some(contents(self.data))
    }

    fn header(&self) -> (h: &DataFrameHeader<INFO_LENGTH>) {
        &self.header
    }

    fn body_len(&self) -> (n: usize) {
        buffer_len(&self.data)
    }

    fn take_body(self) -> (body: Option<Bytes>) {
        Some(self.data)
    }
}

impl<const INFO_LENGTH: usize> DataFrame<INFO_LENGTH> {
    /// The frame's header and payload are what its view says.
    pub proof fn lemma_parts(&self)
        ensures
            self.spec_header().chunk_id == self@.chunk_id,
            self.spec_header().frame_offset == self@.frame_offset,
            self.spec_header().transmission_info@ == self@.transmission_info,
            self.spec_body() == Some(self@.data),
    {
    }
}

/// A request for symbols of one chunk. As a frame it is its own specific header.
#[derive(Debug, Clone, Copy, PartialEq, Eq)]
pub struct GetChunkFrameHeader {
    pub chunk_id: u32,
    /// The first symbol that the receiver still wants.
    pub next_receive_offset: u32,
    /// How many symbols the receiver takes from there; 0 means: send no more.
    pub receive_window_frames: u32,
}

/// Length of the specific header of a chunk request.
pub const GET_CHUNK_HEADER_LEN: usize = 12;

impl RawParts for GetChunkFrameHeader {
    open spec fn raw(&self) -> Seq<u8> {
        be32(self.chunk_id) + be32(self.next_receive_offset) + be32(self.receive_window_frames)
    }

    open spec fn spec_raw_len() -> nat {
        GET_CHUNK_HEADER_LEN as nat
    }

    proof fn lemma_raw_len(&self) {
    }

    fn raw_len() -> (n: usize) {
        GET_CHUNK_HEADER_LEN
    }

    fn put_raw(&self, out: &mut Vec<u8>) {
        let ghost before = out@;
        put_be32(out, self.chunk_id);
        put_be32(out, self.next_receive_offset);
        put_be32(out, self.receive_window_frames);
        assert(out@ =~= before + self.raw());
    }
}

impl SpecificFrameHeader for GetChunkFrameHeader {
    open spec fn spec_frame_type(&self) -> FrameType {
        FrameType::GetChunk
    }

    fn get_frame_type(&self) -> (t: FrameType) {
        FrameType::GetChunk
    }
}

/// A chunk request to send.
pub type GetChunkFrame = GetChunkFrameHeader;

/// A chunk request as received.
pub type ParsedGetChunkFrame = GetChunkFrameHeader;

impl GetChunkFrameHeader {
    /// What the content of a chunk request says: the specific header and nothing
    /// after it.
    pub open spec fn parse_spec(content: Seq<u8>) -> Option<GetChunkFrameHeader> {
        if content.len() == GET_CHUNK_HEADER_LEN {
            Some(
                GetChunkFrameHeader {
                    chunk_id: from_be32(content.subrange(0, 4)),
                    next_receive_offset: from_be32(content.subrange(4, 8)),
                    receive_window_frames: from_be32(content.subrange(8, 12)),
                },
            )
        } else {
            None
        }
    }

    /// Parses the content of a chunk request.
    pub fn try_parse(content: &[u8]) -> (r: Option<GetChunkFrameHeader>)
        ensures
            r == Self::parse_spec(content@),
    {
        if content.len() != GET_CHUNK_HEADER_LEN {
            return None;
        }
        Some(
            GetChunkFrameHeader {
                chunk_id: get_be32(content, 0),
                next_receive_offset: get_be32(content, 4),
                receive_window_frames: get_be32(content, 8),
            },
        )
    }
}

impl Frame for GetChunkFrameHeader {
    type Header = GetChunkFrameHeader;

    open spec fn spec_header(&self) -> GetChunkFrameHeader {
        *self
    }

    open spec fn spec_body(&self) -> Option<Seq<u8>> {
        None
    }

    fn header(&self) -> (h: &GetChunkFrameHeader) {
        self
    }

    fn body_len(&self) -> (n: usize) {
        0
    }

    fn take_body(self) -> (body: Option<Bytes>) {
        None
    }
}

/// The rate that the receiver asks the sender to keep to. As a frame it is its own
/// specific header.
#[derive(Debug, Clone, Copy, PartialEq, Eq)]
pub struct RateLimitFrameHeader {
    pub desired_max_kbps: u32,
}

/// Length of the specific header of a rate limit.
pub const RATE_LIMIT_HEADER_LEN: usize = 4;

impl RawParts for RateLimitFrameHeader {
    open spec fn raw(&self) -> Seq<u8> {
        be32(self.desired_max_kbps)
    }

    open spec fn spec_raw_len() -> nat {
        RATE_LIMIT_HEADER_LEN as nat
    }

    proof fn lemma_raw_len(&self) {
    }

    fn raw_len() -> (n: usize) {
        RATE_LIMIT_HEADER_LEN
    }

    fn put_raw(&self, out: &mut Vec<u8>) {
        put_be32(out, self.desired_max_kbps);
    }
}

impl SpecificFrameHeader for RateLimitFrameHeader {
    open spec fn spec_frame_type(&self) -> FrameType {
        FrameType::RateLimit
    }

    fn get_frame_type(&self) -> (t: FrameType) {
        FrameType::RateLimit
    }
}

/// A rate limit to send.
pub type RateLimitFrame = RateLimitFrameHeader;

/// A rate limit as received.
pub type ParsedRateLimitFrame = RateLimitFrameHeader;

impl RateLimitFrameHeader {
    /// What the content of a rate limit says: the specific header and nothing after
    /// it.
    pub open spec fn parse_spec(content: Seq<u8>) -> Option<RateLimitFrameHeader> {
        if content.len() == RATE_LIMIT_HEADER_LEN {
            Some(RateLimitFrameHeader { desired_max_kbps: from_be32(content.subrange(0, 4)) })
        } else {
            None
        }
    }

    /// Parses the content of a rate limit.
    pub fn try_parse(content: &[u8]) -> (r: Option<RateLimitFrameHeader>)
        ensures
            r == Self::parse_spec(content@),
    {
        if content.len() != RATE_LIMIT_HEADER_LEN {
            return None;
        }
        Some(RateLimitFrameHeader { desired_max_kbps: get_be32(content, 0) })
    }
}

impl Frame for RateLimitFrameHeader {
    type Header = RateLimitFrameHeader;

    open spec fn spec_header(&self) -> RateLimitFrameHeader {
        *self
    }

    open spec fn spec_body(&self) -> Option<Seq<u8>> {
        None
    }

    fn header(&self) -> (h: &RateLimitFrameHeader) {
        self
    }

    fn body_len(&self) -> (n: usize) {
        0
    }

    fn take_body(self) -> (body: Option<Bytes>) {
        None
    }
}

/// What a frame says.
pub enum FrameView {
    Data(DataFrameView),
    GetChunk(GetChunkFrameHeader),
    RateLimit(RateLimitFrameHeader),
}

/// A frame as received.
#[derive(Debug)]
pub enum ParsedFrameVariant<const INFO_LENGTH: usize> {
    Data(ParsedDataFrame<INFO_LENGTH>),
    GetChunk(GetChunkFrameHeader),
    RateLimit(RateLimitFrameHeader),
}

impl<const INFO_LENGTH: usize> View for ParsedFrameVariant<INFO_LENGTH> {
    type V = FrameView;

    open spec fn view(&self) -> FrameView {
        match self {
            ParsedFrameVariant::Data(f) => FrameView::Data(f@),
            ParsedFrameVariant::GetChunk(h) => FrameView::GetChunk(*h),
            ParsedFrameVariant::RateLimit(h) => FrameView::RateLimit(*h),
        }
    }
}

/// What the content of a frame of the given type says, with data frames whose
/// transmission info takes `info_length` bytes.
pub open spec fn parse_frame_content(
    info_length: nat,
    frame_type: FrameType,
    content: Seq<u8>,
) -> Option<FrameView> {
    match frame_type {
        FrameType::Data => match parse_data_content(info_length, content) {
            Some(f) => Some(FrameView::Data(f)),
            None => None,
        },
        FrameType::GetChunk => match GetChunkFrameHeader::parse_spec(content) {
            Some(h) => Some(FrameView::GetChunk(h)),
            None => None,
        },
        FrameType::RateLimit => match RateLimitFrameHeader::parse_spec(content) {
            Some(h) => Some(FrameView::RateLimit(h)),
            None => None,
        },
    }
}

impl FrameType {
    /// Parses the content of a frame of this type, which is the bytes `start..end`
    /// of `packet`.
    pub fn try_parse<const INFO_LENGTH: usize>(
        &self,
        packet: &Bytes,
        start: usize,
        end: usize,
    ) -> (r: Option<ParsedFrameVariant<INFO_LENGTH>>)
        requires
            start <= end <= contents(*packet).len(),
        ensures
            r is Some <==> parse_frame_content(
                INFO_LENGTH as nat,
                *self,
                contents(*packet).subrange(start as int, end as int),
            ) is Some,
            r matches Some(f) ==> Some(f@) == parse_frame_content(
                INFO_LENGTH as nat,
                *self,
                contents(*packet).subrange(start as int, end as int),
            ),
    {
        match self {
            FrameType::Data => match DataFrame::<INFO_LENGTH>::try_parse(packet, start, end) {
                Some(f) => Some(ParsedFrameVariant::Data(f)),
                None => None,
            },
            FrameType::GetChunk => {
                let content = vstd::slice::slice_subrange(buffer_as_slice(packet), start, end);
                match GetChunkFrameHeader::try_parse(content) {
                    Some(h) => Some(ParsedFrameVariant::GetChunk(h)),
                    None => None,
                }
            },
            FrameType::RateLimit => {
                let content = vstd::slice::slice_subrange(buffer_as_slice(packet), start, end);
                match RateLimitFrameHeader::try_parse(content) {
                    Some(h) => Some(ParsedFrameVariant::RateLimit(h)),
                    None => None,
                }
            },
        }
    }
}

} // verus!
