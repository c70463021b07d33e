//! Building packets into buffers and parsing datagrams into packets.
use bytes::Bytes;
use vstd::prelude::*;

use crate::constants::{MTU, VERSION};
use crate::protocol::key_ring::{KeyRing, KeyRingView};
use crate::protocol::wire::buffer::{
    buffer_as_slice, buffer_from_vec, buffer_len, concat, contents, lemma_concat_push,
};
use crate::protocol::wire::endian::{from_be16, from_be32, get_be16, get_be32};
use crate::protocol::wire::frames::{parse_frame_content, FrameType, FrameView, ParsedFrameVariant};
use crate::protocol::wire::packets::{PacketType, PacketVariantView, ParsedPacketVariant};
use crate::protocol::wire::verify::{
    signature_of, tail_len, verification_outcome, PacketVerificationError, PacketVerifyType,
};
use crate::protocol::wire::{
    frame_headers, frame_wire, payload_len, BuiltFrame, CommonFrameHeader, CommonPacketHeader, Frame, Packet,
    RawParts, SpecificFrameHeader, SpecificPacketHeader, COMMON_FRAME_HEADER_LEN,
    COMMON_PACKET_HEADER_LEN,
};

verus! {

/// Building, for every frame.
pub trait FrameExt: Frame {
    /// Length of the frame's two headers together.
    fn total_header_len(&self) -> (n: usize)
        requires
            COMMON_FRAME_HEADER_LEN + <Self::Header as RawParts>::spec_raw_len() <= usize::MAX,
        ensures
            n == COMMON_FRAME_HEADER_LEN + <Self::Header as RawParts>::spec_raw_len(),
    ;

    /// Makes the frame ready for output: its two headers in one buffer, its payload,
    /// untouched, in another, and no other buffer where it has no payload. The frame
    /// must be short enough for its length field.
    fn build(self) -> (built: BuiltFrame)
        requires
            COMMON_FRAME_HEADER_LEN + <Self::Header as RawParts>::spec_raw_len() + payload_len(
                self.spec_body(),
            ) <= u16::MAX,
        ensures
            contents(built.header) == frame_headers(self.spec_header(), self.spec_body()),
            built.body is Some <==> self.spec_body() is Some,
            built.body matches Some(b) ==> self.spec_body() == Some(contents(b)),
            built.wire() == frame_wire(self.spec_header(), self.spec_body()),
    ;
}

impl<T: Frame> FrameExt for T {
    fn total_header_len(&self) -> (n: usize) {
        COMMON_FRAME_HEADER_LEN + <T::Header as RawParts>::raw_len()
    }

    fn build(self) -> (built: BuiltFrame) {
        let header_length: usize = self.total_header_len();
        let frame_length: u16 = (header_length + self.body_len()) as u16;
        let common_header = CommonFrameHeader {
            frame_type: self.header().get_frame_type().to_u8(),
            frame_length,
        };
        let mut header: Vec<u8> = Vec::with_capacity(header_length);
        common_header.put_raw(&mut header);
        self.header().put_raw(&mut header);
        let ghost body = self.spec_body();
        let ghost wire = frame_wire(self.spec_header(), body);
        assert(header@ =~= common_header.raw() + self.spec_header().raw());
        let built = BuiltFrame { header: buffer_from_vec(header), body: self.take_body() };
        assert(built.wire() =~= wire);
        built
    }
}

/// The bytes of a list of frames, laid end to end.
pub open spec fn flat(frames: Seq<Seq<u8>>) -> Seq<u8>
    decreases frames.len(),
{
    if frames.len() == 0 {
        Seq::empty()
    } else {
        flat(frames.drop_last()) + frames.last()
    }
}

/// Appending one frame to a list appends its bytes to the list's bytes.
pub proof fn lemma_flat_push(frames: Seq<Seq<u8>>, frame: Seq<u8>)
    ensures
        flat(frames.push(frame)) == flat(frames) + frame,
{
    assert(frames.push(frame).drop_last() =~= frames);
}

/// Putting one frame before a list puts its bytes before the list's bytes.
pub proof fn lemma_flat_cons(frame: Seq<u8>, frames: Seq<Seq<u8>>)
    ensures
        flat(seq![frame] + frames) == frame + flat(frames),
    decreases frames.len(),
{
    if frames.len() == 0 {
        assert(seq![frame] + frames =~= seq![frame]);
        lemma_flat_push(Seq::empty(), frame);
        assert(Seq::<Seq<u8>>::empty().push(frame) =~= seq![frame]);
        assert(flat(seq![frame]) =~= frame);
        assert(frame + flat(frames) =~= frame);
    } else {
        lemma_flat_cons(frame, frames.drop_last());
        assert((seq![frame] + frames).drop_last() =~= seq![frame] + frames.drop_last());
        assert((seq![frame] + frames).last() == frames.last());
        assert(flat(seq![frame] + frames) =~= frame + flat(frames));
    }
}

/// The first frames of a list take no more bytes than the whole list.
pub proof fn lemma_flat_prefix_len(frames: Seq<Seq<u8>>, n: int)
    requires
        0 <= n <= frames.len(),
    ensures
        flat(frames.subrange(0, n)).len() <= flat(frames).len(),
    decreases frames.len() - n,
{
    if n == frames.len() {
        assert(frames.subrange(0, n) =~= frames);
    } else {
        lemma_flat_prefix_len(frames, n + 1);
        lemma_flat_push(frames.subrange(0, n), frames[n]);
        assert(frames.subrange(0, n).push(frames[n]) =~= frames.subrange(0, n + 1));
    }
}

/// The bytes on the wire of each of a list of built frames.
pub open spec fn wires(frames: Seq<BuiltFrame>) -> Seq<Seq<u8>> {
    Seq::new(frames.len(), |i: int| frames[i].wire())
}

/// The number of bytes that a packet takes on the wire.
pub open spec fn wire_len<P: Packet>(packet: P) -> nat {
    COMMON_PACKET_HEADER_LEN as nat + <P::Header as RawParts>::spec_raw_len() + flat(
        packet.spec_frames(),
    ).len() + tail_len(P::spec_verification_type())
}

/// The bytes on the wire of a packet, without its verification tail: the common
/// header, which tells the lengths of what follows, the specific header, the frames.
pub open spec fn packet_prefix<P: Packet>(packet: P, packet_id: u32) -> Seq<u8> {
    (CommonPacketHeader {
        version: VERSION,
        packet_type: packet.spec_header().spec_packet_type().code(),
        header_length: (COMMON_PACKET_HEADER_LEN + <P::Header as RawParts>::spec_raw_len()) as u16,
        body_length: flat(packet.spec_frames()).len() as u16,
        packet_id,
    }).raw() + packet.spec_header().raw() + flat(packet.spec_frames())
}

/// The bytes on the wire of a packet built with the keys of `ring`.
pub open spec fn packet_wire<P: Packet>(packet: P, ring: KeyRingView, packet_id: u32) -> Seq<u8> {
    packet_prefix(packet, packet_id) + signature_of(
        ring,
        P::spec_verification_type(),
        packet_prefix(packet, packet_id),
    )
}

/// Moves the buffers of built frames to the end of a list of buffers.
fn append_frames(result: &mut Vec<Bytes>, frames: Vec<BuiltFrame>)
    ensures
        concat(final(result)@) == concat(old(result)@) + flat(wires(frames@)),
        final(result)@.len() >= old(result)@.len(),
{
    let ghost all = frames@;
    let ghost start = concat(result@);
    assert(all.subrange(0, 0) =~= Seq::<BuiltFrame>::empty());
    assert(flat(wires(all.subrange(0, 0))) =~= Seq::<u8>::empty());
    assert(start + Seq::<u8>::empty() =~= start);
    for frame in it: frames
        invariant
            it.seq() == all,
            start == concat(old(result)@),
            result@.len() >= old(result)@.len(),
            concat(result@) == start + flat(wires(all.subrange(0, it.index() as int))),
    {
        let ghost i = it.index() as int;
        let ghost before = concat(result@);
        proof {
            lemma_concat_push(result@, frame.header);
        }
        result.push(frame.header);
        match frame.body {
            Some(b) => {
                proof {
                    lemma_concat_push(result@, b);
                }
                result.push(b);
            },
            None => {},
        }
        proof {
            assert(concat(result@) =~= before + frame.wire());
            lemma_flat_push(wires(all.subrange(0, i)), frame.wire());
            assert(wires(all.subrange(0, i)).push(frame.wire()) =~= wires(all.subrange(0, i + 1)));
        }
    }
    assert(all.subrange(0, all.len() as int) =~= all);
}

/// The number of bytes that a list of built frames takes on the wire.
fn body_len_of(frames: &Vec<BuiltFrame>) -> (n: usize)
    requires
        flat(wires(frames@)).len() <= MTU,
    ensures
        n == flat(wires(frames@)).len(),
{
    let mut n: usize = 0;
    let mut i: usize = 0;
    assert(wires(frames@).subrange(0, 0) =~= Seq::<Seq<u8>>::empty());
    while i < frames.len()
        invariant
            0 <= i <= frames@.len(),
            flat(wires(frames@)).len() <= MTU,
            n == flat(wires(frames@).subrange(0, i as int)).len(),
        decreases frames@.len() - i,
    {
        proof {
            lemma_flat_prefix_len(wires(frames@), i + 1);
            lemma_flat_push(wires(frames@).subrange(0, i as int), frames@[i as int].wire());
            assert(wires(frames@).subrange(0, i as int).push(frames@[i as int].wire())
                =~= wires(frames@).subrange(0, i + 1));
        }
        let frame = &frames[i];
        n = n + buffer_len(&frame.header);
        match &frame.body {
            Some(b) => {
                n = n + buffer_len(b);
            },
            None => {},
        }
        i = i + 1;
    }
    assert(wires(frames@).subrange(0, frames@.len() as int) =~= wires(frames@));
    n
}

/// Building, for every packet.
pub trait PacketExt: Packet {
    /// Makes the packet ready for gathered output: the common header, the specific
    /// header, the buffers of each frame and the verification tail, in this order.
    /// The packet must fit the MTU, and a packet that is signed takes the private
    /// key.
    fn build(self, key_ring: &KeyRing, packet_id: u32) -> (out: Vec<Bytes>)
        requires
            self.buildable(),
            wire_len(self) <= MTU,
            Self::spec_verification_type() is Ed25519 ==> key_ring@.private_key is Some,
        ensures
            concat(out@) == packet_wire(self, key_ring@, packet_id),
            concat(out@).len() == wire_len(self),
            out@.len() >= 3,
            concat(out@.drop_last()) == packet_prefix(self, packet_id),
            contents(out@.last()) == signature_of(
                key_ring@,
                Self::spec_verification_type(),
                packet_prefix(self, packet_id),
            ),
    ;
}

impl<T: Packet> PacketExt for T {
    fn build(self, key_ring: &KeyRing, packet_id: u32) -> (out: Vec<Bytes>) {
        let ghost specific_raw = self.spec_header().raw();
        let ghost frames_spec = self.spec_frames();
        let ghost prefix = packet_prefix(self, packet_id);
        proof {
            self.spec_header().lemma_raw_len();
        }
        let specific_len: usize = <T::Header as RawParts>::raw_len();
        let packet_type = self.get_header().get_packet_type();
        let mut specific: Vec<u8> = Vec::with_capacity(specific_len);
        self.get_header().put_raw(&mut specific);
        assert(specific@ =~= specific_raw);

        let frames = self.get_body();
        assert(wires(frames@) =~= frames_spec);
        let body_length: usize = body_len_of(&frames);

        let packet_header = CommonPacketHeader {
            version: VERSION,
            packet_type: packet_type.to_u8(),
            header_length: (COMMON_PACKET_HEADER_LEN + specific_len) as u16,
            body_length: body_length as u16,
            packet_id,
        };
        let mut common: Vec<u8> = Vec::with_capacity(COMMON_PACKET_HEADER_LEN);
        packet_header.put_raw(&mut common);
        assert(common@ =~= packet_header.raw());

        let mut result: Vec<Bytes> = Vec::new();
        let common_buffer = buffer_from_vec(common);
        let specific_buffer = buffer_from_vec(specific);
        proof {
            assert(concat(result@) =~= Seq::<u8>::empty());
            lemma_concat_push(result@, common_buffer);
            lemma_concat_push(result@.push(common_buffer), specific_buffer);
        }
        result.push(common_buffer);
        result.push(specific_buffer);
        append_frames(&mut result, frames);
        assert(concat(result@) =~= prefix);

        let signature = key_ring.sign(T::verification_type(), &result);
        proof {
            lemma_concat_push(result@, signature);
            assert(result@.push(signature).drop_last() =~= result@);
        }
        result.push(signature);
        result
    }
}

/// Why a datagram is no packet.
#[derive(Debug, Clone, Copy, PartialEq, Eq)]
pub enum ParseError {
    /// The packet is of a version other than the one this codec speaks.
    UnsupportedVersion(u8),
    /// The packet's type byte stands for no type.
    UnsupportedPacketType(u8),
    /// A frame's type byte stands for no type, or its content does not fit its type.
    UnsupportedFrameType(u8),
    /// The header is said to be shorter than the common header alone.
    InconsistentFields,
    /// The datagram is shorter than a common header, or than the lengths in it say.
    PacketTooShort,
    /// The body ends within a frame.
    BodyTooShort,
    /// The packet failed verification.
    Verification(PacketVerificationError),
    /// The specific header does not fit the packet's type.
    FailedToParsePacketHeader,
    /// A frame could not be parsed.
    FailedToParseFrame,
}

/// What a packet says.
pub struct ParsedPacketView {
    /// The whole datagram.
    pub pkt: Seq<u8>,
    pub specific_packet_header: PacketVariantView,
    /// The frames, in the order in which they stand in the packet.
    pub frames: Seq<FrameView>,
}

/// A packet as received and verified.
#[derive(Debug)]
pub struct ParsedPacket<const INFO_LENGTH: usize> {
    /// The whole datagram.
    pub pkt: Bytes,
    pub specific_packet_header: ParsedPacketVariant,
    /// The frames, in the order in which they stand in the packet.
    pub frames: Vec<ParsedFrameVariant<INFO_LENGTH>>,
}

/// What each of a list of frames says.
pub open spec fn frames_view<const INFO_LENGTH: usize>(
    frames: Seq<ParsedFrameVariant<INFO_LENGTH>>,
) -> Seq<FrameView> {
    Seq::new(frames.len(), |i: int| frames[i]@)
}

impl<const INFO_LENGTH: usize> View for ParsedPacket<INFO_LENGTH> {
    type V = ParsedPacketView;

    open spec fn view(&self) -> ParsedPacketView {
        ParsedPacketView {
            pkt: contents(self.pkt),
            specific_packet_header: self.specific_packet_header@,
            frames: frames_view(self.frames@),
        }
    }
}

/// The common header that a datagram starts with.
pub open spec fn common_header_of(packet: Seq<u8>) -> CommonPacketHeader
    recommends
        packet.len() >= COMMON_PACKET_HEADER_LEN,
{
    CommonPacketHeader {
        version: packet[0],
        packet_type: packet[1],
        header_length: from_be16(packet.subrange(2, 4)),
        body_length: from_be16(packet.subrange(4, 6)),
        packet_id: from_be32(packet.subrange(6, 10)),
    }
}

/// Reads the common header that a datagram starts with.
fn read_common_header(data: &[u8]) -> (r: Option<CommonPacketHeader>)
    ensures
        r == if data@.len() >= COMMON_PACKET_HEADER_LEN {
            Some(common_header_of(data@))
        } else {
            None
        },
{
    if data.len() < COMMON_PACKET_HEADER_LEN {
        return None;
    }
    Some(
        CommonPacketHeader {
            version: data[0],
            packet_type: data[1],
            header_length: get_be16(data, 2),
            body_length: get_be16(data, 4),
            packet_id: get_be32(data, 6),
        },
    )
}

impl<const INFO_LENGTH: usize> ParsedPacket<INFO_LENGTH> {
    /// The common header of the packet.
    pub fn get_common_packet_header(&self) -> (header: CommonPacketHeader)
        requires
            contents(self.pkt).len() >= COMMON_PACKET_HEADER_LEN,
        ensures
            header == common_header_of(contents(self.pkt)),
    {
        read_common_header(buffer_as_slice(&self.pkt)).unwrap()
    }
}

/// The result of a parse after the frames that were parsed before it.
pub open spec fn after_frames(
    head: Seq<FrameView>,
    rest: Result<Seq<FrameView>, ParseError>,
) -> Result<Seq<FrameView>, ParseError> {
    match rest {
        Ok(frames) => Ok(head + frames),
        Err(e) => Err(e),
    }
}

/// What the body of a packet says, with data frames whose transmission info takes
/// `info_length` bytes: its frames in order, or why it holds none. A frame begins
/// with its type and its length, which counts these three bytes too and must not
/// reach past the end of the body. The first frame that is at fault decides the
/// error.
pub open spec fn parse_frames_spec(info_length: nat, body: Seq<u8>) -> Result<
    Seq<FrameView>,
    ParseError,
>
    decreases body.len(),
{
    if body.len() == 0 {
        Ok(Seq::empty())
    } else if body.len() < COMMON_FRAME_HEADER_LEN {
        Err(ParseError::BodyTooShort)
    } else {
        let frame_length = from_be16(body.subrange(1, 3)) as int;
        if frame_length < COMMON_FRAME_HEADER_LEN || frame_length > body.len() {
            Err(ParseError::BodyTooShort)
        } else {
            match FrameType::of_code(body[0]) {
                None => Err(ParseError::UnsupportedFrameType(body[0])),
                Some(t) => match parse_frame_content(
                    info_length,
                    t,
                    body.subrange(COMMON_FRAME_HEADER_LEN as int, frame_length),
                ) {
                    None => Err(ParseError::UnsupportedFrameType(body[0])),
                    Some(frame) => after_frames(
                        seq![frame],
                        parse_frames_spec(
                            info_length,
                            body.subrange(frame_length, body.len() as int),
                        ),
                    ),
                },
            }
        }
    }
}

/// What a datagram says to the holder of the keys of `ring`: a packet, or why it is
/// none. The structure is looked at first and the verification tail last: the
/// checks come in this order: the common header, the version, the lengths against
/// the datagram, the packet's type, its specific header, the frames, the
/// verification tail.
pub open spec fn parse_packet_spec(info_length: nat, packet: Seq<u8>, ring: KeyRingView) -> Result<
    ParsedPacketView,
    ParseError,
> {
    if packet.len() < COMMON_PACKET_HEADER_LEN {
        Err(ParseError::PacketTooShort)
    } else {
        let common = common_header_of(packet);
        let header_end = common.header_length as int;
        let body_end = common.header_length as int + common.body_length as int;
        if common.version != VERSION {
            Err(ParseError::UnsupportedVersion(common.version))
        } else if body_end > packet.len() {
            Err(ParseError::PacketTooShort)
        } else if header_end < COMMON_PACKET_HEADER_LEN {
            Err(ParseError::InconsistentFields)
        } else {
            match PacketType::of_code(common.packet_type) {
                None => Err(ParseError::UnsupportedPacketType(common.packet_type)),
                Some(t) => match t.parse_header_spec(
                    packet.subrange(COMMON_PACKET_HEADER_LEN as int, header_end),
                ) {
                    None => Err(ParseError::FailedToParsePacketHeader),
                    Some(variant) => match parse_frames_spec(
                        info_length,
                        packet.subrange(header_end, body_end),
                    ) {
                        Err(e) => Err(e),
                        Ok(frames) => match verification_outcome(
                            ring,
                            variant.verification_data(
                                packet.subrange(0, body_end),
                                packet.subrange(body_end, packet.len() as int),
                            ),
                        ) {
                            Err(e) => Err(ParseError::Verification(e)),
                            Ok(_) => Ok(
                                ParsedPacketView {
                                    pkt: packet,
                                    specific_packet_header: variant,
                                    frames,
                                },
                            ),
                        },
                    },
                },
            }
        }
    }
}

/// Parses the frames of a packet, whose body is the bytes `start..end` of `packet`.
fn parse_frame<const INFO_LENGTH: usize>(packet: &Bytes, start: usize, end: usize) -> (r: Result<
    Vec<ParsedFrameVariant<INFO_LENGTH>>,
    ParseError,
>)
    requires
        start <= end <= contents(*packet).len(),
    ensures
        match r {
            Ok(frames) => parse_frames_spec(
                INFO_LENGTH as nat,
                contents(*packet).subrange(start as int, end as int),
            ) == Ok::<Seq<FrameView>, ParseError>(frames_view(frames@)),
            Err(e) => parse_frames_spec(
                INFO_LENGTH as nat,
                contents(*packet).subrange(start as int, end as int),
            ) == Err::<Seq<FrameView>, ParseError>(e),
        },
{
    let data = buffer_as_slice(packet);
    let ghost all = contents(*packet);
    let ghost body = all.subrange(start as int, end as int);
    let mut frames: Vec<ParsedFrameVariant<INFO_LENGTH>> = Vec::new();
    let mut at: usize = start;
    proof {
        assert(body.subrange(0, body.len() as int) =~= body);
        assert(frames_view(frames@) =~= Seq::<FrameView>::empty());
        lemma_after_nothing(parse_frames_spec(INFO_LENGTH as nat, body));
    }
    while at < end
        invariant
            start <= at <= end <= all.len(),
            data@ == all,
            all == contents(*packet),
            body == all.subrange(start as int, end as int),
            parse_frames_spec(INFO_LENGTH as nat, body) == after_frames(
                frames_view(frames@),
                parse_frames_spec(INFO_LENGTH as nat, all.subrange(at as int, end as int)),
            ),
        decreases end - at,
    {
        let ghost rest = all.subrange(at as int, end as int);
        let ghost done = frames_view(frames@);
        if end - at < COMMON_FRAME_HEADER_LEN {
            return Err(ParseError::BodyTooShort);
        }
        let frame_type: u8 = data[at];
        let frame_length: usize = get_be16(data, at + 1) as usize;
        proof {
            assert(rest.subrange(1, 3) =~= all.subrange(at + 1, at + 3));
            assert(rest[0] == frame_type);
        }
        if frame_length < COMMON_FRAME_HEADER_LEN || frame_length > end - at {
            return Err(ParseError::BodyTooShort);
        }
        let kind = match FrameType::from_u8(frame_type) {
            Some(kind) => kind,
            None => {
                return Err(ParseError::UnsupportedFrameType(frame_type));
            },
        };
        proof {
            assert(rest.subrange(COMMON_FRAME_HEADER_LEN as int, frame_length as int)
                =~= all.subrange(at + COMMON_FRAME_HEADER_LEN, at + frame_length));
            assert(rest.subrange(frame_length as int, rest.len() as int) =~= all.subrange(
                at + frame_length,
                end as int,
            ));
        }
        let frame = match kind.try_parse::<INFO_LENGTH>(
            packet,
            at + COMMON_FRAME_HEADER_LEN,
            at + frame_length,
        ) {
            Some(frame) => frame,
            None => {
                return Err(ParseError::UnsupportedFrameType(frame_type));
            },
        };
        proof {
            let next = parse_frames_spec(
                INFO_LENGTH as nat,
                all.subrange(at + frame_length, end as int),
            );
            assert(parse_frames_spec(INFO_LENGTH as nat, rest) == after_frames(seq![frame@], next));
            lemma_after_frames(done, seq![frame@], next);
            assert(frames_view(frames@.push(frame)) =~= done + seq![frame@]);
        }
        frames.push(frame);
        at = at + frame_length;
    }
    proof {
        assert(all.subrange(at as int, end as int) =~= Seq::<u8>::empty());
        assert(frames_view(frames@) + Seq::<FrameView>::empty() =~= frames_view(frames@));
    }
    Ok(frames)
}

/// Frames parsed before nothing are the result itself.
pub proof fn lemma_after_nothing(rest: Result<Seq<FrameView>, ParseError>)
    ensures
        after_frames(Seq::empty(), rest) == rest,
{
    match rest {
        Ok(frames) => {
            assert(Seq::<FrameView>::empty() + frames =~= frames);
        },
        Err(_) => {},
    }
}

/// Frames parsed in two runs are the frames of both runs.
pub proof fn lemma_after_frames(
    first: Seq<FrameView>,
    second: Seq<FrameView>,
    rest: Result<Seq<FrameView>, ParseError>,
)
    ensures
        after_frames(first, after_frames(second, rest)) == after_frames(first + second, rest),
{
    match rest {
        Ok(frames) => {
            assert(first + (second + frames) =~= (first + second) + frames);
        },
        Err(_) => {},
    }
}

/// Parses a datagram and then verifies it with the keys of `key_ring`.
pub fn parse_packet<const INFO_LENGTH: usize>(packet: Bytes, key_ring: &KeyRing) -> (r: Result<
    ParsedPacket<INFO_LENGTH>,
    ParseError,
>)
    ensures
        match r {
            Ok(parsed) => parse_packet_spec(INFO_LENGTH as nat, contents(packet), key_ring@)
                == Ok::<ParsedPacketView, ParseError>(parsed@),
            Err(e) => parse_packet_spec(INFO_LENGTH as nat, contents(packet), key_ring@)
                == Err::<ParsedPacketView, ParseError>(e),
        },
{
    let data = buffer_as_slice(&packet);
    let common = match read_common_header(data) {
        Some(common) => common,
        None => {
            return Err(ParseError::PacketTooShort);
        },
    };
    let header_length: usize = common.header_length as usize;
    let body_length: usize = common.body_length as usize;
    if common.version != VERSION {
        return Err(ParseError::UnsupportedVersion(common.version));
    }
    if header_length + body_length > data.len() {
        return Err(ParseError::PacketTooShort);
    }
    let body_end: usize = header_length + body_length;
    let verification_field = vstd::slice::slice_subrange(data, body_end, data.len());
    if header_length < COMMON_PACKET_HEADER_LEN {
        return Err(ParseError::InconsistentFields);
    }
    let packet_type = match PacketType::from_u8(common.packet_type) {
        Some(t) => t,
        None => {
            return Err(ParseError::UnsupportedPacketType(common.packet_type));
        },
    };
    let packet_variant = match packet_type.try_parse(
        &packet,
        COMMON_PACKET_HEADER_LEN,
        header_length,
    ) {
        Some(variant) => variant,
        None => {
            return Err(ParseError::FailedToParsePacketHeader);
        },
    };
    let frames = match parse_frame::<INFO_LENGTH>(&packet, header_length, body_end) {
        Ok(frames) => frames,
        Err(e) => {
            return Err(e);
        },
    };
    let prefix = vstd::slice::slice_subrange(data, 0, body_end);
    match key_ring.verify(packet_variant.build_verification_data(prefix, verification_field)) {
        Ok(_) => {},
        Err(e) => {
            return Err(ParseError::Verification(e));
        },
    }
    Ok(ParsedPacket { pkt: packet, specific_packet_header: packet_variant, frames })
}

} // verus!
