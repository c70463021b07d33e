//! Packet and frame layout, and the codec that builds and parses them.
//!
//! A packet is a common header, a header specific to its type, a run of frames and a
//! verification tail. A frame is a common header, a header specific to its type and,
//! for data frames, a payload. All integers are big-endian.
use bytes::Bytes;
use vstd::prelude::*;

use crate::constants::VERSION;
use crate::protocol::wire::buffer::contents;
use crate::protocol::wire::endian::{be16, be32, put_be16, put_be32};
use crate::protocol::wire::frames::FrameType;
use crate::protocol::wire::packets::PacketType;
use crate::protocol::wire::verify::PacketVerifyType;

pub mod buffer;
pub mod encoding;
pub mod endian;
pub mod frames;
pub mod packets;
pub mod round_trip;
pub mod verify;

verus! {

/// Length of the header that every packet starts with.
pub const COMMON_PACKET_HEADER_LEN: usize = 10;

/// Length of the header that every frame starts with.
pub const COMMON_FRAME_HEADER_LEN: usize = 3;

/// Hands out the next packet id of a counter and advances the counter, which wraps
/// around at the top. Ids serve debugging only.
pub fn new_packet_id(counter: &mut u32) -> (id: u32)
    ensures
        id == *old(counter),
        *final(counter) == if *old(counter) == u32::MAX {
            0
        } else {
            (*old(counter) + 1) as u32
        },
{
    let id: u32 = *counter;
    *counter = if id == u32::MAX {
        0
    } else {
        id + 1
    };
    id
}

/// A header with a fixed layout on the wire.
pub trait RawParts: Sized {
    /// The bytes of the header on the wire.
    spec fn raw(&self) -> Seq<u8>;

    /// The number of bytes that every header of this type takes.
    spec fn spec_raw_len() -> nat;

    /// Every header of a type takes the same number of bytes.
    proof fn lemma_raw_len(&self)
        ensures
            self.raw().len() == Self::spec_raw_len(),
    ;

    /// The number of bytes that every header of this type takes.
    fn raw_len() -> (n: usize)
        requires
            Self::spec_raw_len() <= usize::MAX,
        ensures
            n == Self::spec_raw_len(),
    ;

    /// Appends the header's bytes to `out`.
    fn put_raw(&self, out: &mut Vec<u8>)
        ensures
            final(out)@ == old(out)@ + self.raw(),
    ;
}

/// The header that every packet starts with.
#[derive(Debug, Clone, Copy)]
pub struct CommonPacketHeader {
    pub version: u8,
    pub packet_type: u8,
    /// Length of the common and the specific header together.
    pub header_length: u16,
    /// Length of all frames together.
    pub body_length: u16,
    pub packet_id: u32,
}

impl RawParts for CommonPacketHeader {
    open spec fn raw(&self) -> Seq<u8> {
        seq![self.version, self.packet_type] + be16(self.header_length) + be16(self.body_length)
            + be32(self.packet_id)
    }

    open spec fn spec_raw_len() -> nat {
        COMMON_PACKET_HEADER_LEN as nat
    }

    proof fn lemma_raw_len(&self) {
    }

    fn raw_len() -> (n: usize) {
        COMMON_PACKET_HEADER_LEN
    }

    fn put_raw(&self, out: &mut Vec<u8>) {
        let ghost before = out@;
        out.push(self.version);
        out.push(self.packet_type);
        put_be16(out, self.header_length);
        put_be16(out, self.body_length);
        put_be32(out, self.packet_id);
        assert(out@ =~= before + self.raw());
    }
}

/// A header that belongs to one type of packet.
pub trait SpecificPacketHeader: RawParts {
    /// The type of packet that the header belongs to.
    spec fn spec_packet_type(&self) -> PacketType;

    /// The type of packet that the header belongs to.
    fn get_packet_type(&self) -> (t: PacketType)
        ensures
            t == self.spec_packet_type(),
    ;
}

/// The header that every frame starts with.
#[derive(Debug, Clone, Copy)]
pub struct CommonFrameHeader {
    pub frame_type: u8,
    /// Length of the whole frame, this header included.
    pub frame_length: u16,
}

impl RawParts for CommonFrameHeader {
    open spec fn raw(&self) -> Seq<u8> {
        seq![self.frame_type] + be16(self.frame_length)
    }

    open spec fn spec_raw_len() -> nat {
        COMMON_FRAME_HEADER_LEN as nat
    }

    proof fn lemma_raw_len(&self) {
    }

    fn raw_len() -> (n: usize) {
        COMMON_FRAME_HEADER_LEN
    }

    fn put_raw(&self, out: &mut Vec<u8>) {
        let ghost before = out@;
        out.push(self.frame_type);
        put_be16(out, self.frame_length);
        assert(out@ =~= before + self.raw());
    }
}

/// A header that belongs to one type of frame.
pub trait SpecificFrameHeader: RawParts {
    /// The type of frame that the header belongs to.
    spec fn spec_frame_type(&self) -> FrameType;

    /// The type of frame that the header belongs to.
    fn get_frame_type(&self) -> (t: FrameType)
        ensures
            t == self.spec_frame_type(),
    ;
}

/// The number of bytes of an optional payload.
pub open spec fn payload_len(body: Option<Seq<u8>>) -> nat {
    match body {
        Some(b) => b.len(),
        None => 0,
    }
}

/// The bytes of an optional payload.
pub open spec fn payload_bytes(body: Option<Seq<u8>>) -> Seq<u8> {
    match body {
        Some(b) => b,
        None => Seq::empty(),
    }
}

/// A frame that can be put on the wire: a specific header and, for some types, a
/// payload.
pub trait Frame: Sized {
    type Header: SpecificFrameHeader;

    /// The frame's specific header.
    spec fn spec_header(&self) -> Self::Header;

    /// The frame's payload, where its type has one.
    spec fn spec_body(&self) -> Option<Seq<u8>>;

    /// The frame's specific header.
    fn header(&self) -> (h: &Self::Header)
        ensures
            *h == self.spec_header(),
    ;

    /// The number of bytes of the frame's payload, 0 where it has none.
    fn body_len(&self) -> (n: usize)
        ensures
            n == payload_len(self.spec_body()),
    ;

    /// Gives up the frame for its payload.
    fn take_body(self) -> (body: Option<Bytes>)
        ensures
            body is Some <==> self.spec_body() is Some,
            body matches Some(b) ==> self.spec_body() == Some(contents(b)),
    ;
}

/// A frame made ready for gathered output: its two headers in one buffer, its
/// payload, untouched, in another.
pub struct BuiltFrame {
    pub header: Bytes,
    pub body: Option<Bytes>,
}

impl BuiltFrame {
    /// The bytes of the frame on the wire.
    pub open spec fn wire(&self) -> Seq<u8> {
        contents(self.header) + match self.body {
            Some(b) => contents(b),
            None => Seq::empty(),
        }
    }
}

/// The bytes of the two headers of a frame with the given specific header and
/// payload: the common header, which tells the frame's type and its whole length,
/// then the specific header.
pub open spec fn frame_headers<H: SpecificFrameHeader>(header: H, body: Option<Seq<u8>>) -> Seq<
    u8,
> {
    CommonFrameHeader {
        frame_type: header.spec_frame_type().code(),
        frame_length: (COMMON_FRAME_HEADER_LEN + H::spec_raw_len() + payload_len(body)) as u16,
    }.raw() + header.raw()
}

/// The bytes on the wire of a frame with the given specific header and payload.
pub open spec fn frame_wire<H: SpecificFrameHeader>(header: H, body: Option<Seq<u8>>) -> Seq<u8> {
    frame_headers(header, body) + payload_bytes(body)
}

/// A packet that can be put on the wire: a specific header and frames.
pub trait Packet: Sized {
    type Header: SpecificPacketHeader;

    /// The packet's specific header.
    spec fn spec_header(&self) -> Self::Header;

    /// The bytes on the wire of each of the packet's frames, in the order in which
    /// they are sent.
    spec fn spec_frames(&self) -> Seq<Seq<u8>>;

    /// Whether each frame is short enough for its length field.
    spec fn buildable(&self) -> bool;

    /// How packets of this type are verified.
    spec fn spec_verification_type() -> PacketVerifyType;

    /// How packets of this type are verified.
    fn verification_type() -> (t: PacketVerifyType)
        ensures
            t == Self::spec_verification_type(),
    ;

    /// The packet's specific header.
    fn get_header(&self) -> (h: &Self::Header)
        ensures
            *h == self.spec_header(),
    ;

    /// Gives up the packet for its frames, built.
    fn get_body(self) -> (frames: Vec<BuiltFrame>)
        requires
            self.buildable(),
        ensures
            frames@.len() == self.spec_frames().len(),
            forall|i: int|
                0 <= i < frames@.len() ==> (#[trigger] frames@[i]).wire() == self.spec_frames()[i],
    ;
}

} // verus!
