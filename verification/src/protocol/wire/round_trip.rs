//! What is built parses back: the laws that tie the two halves of the codec.
use vstd::prelude::*;

use crate::constants::MTU;
use crate::protocol::key_ring::KeyRingView;
use crate::protocol::wire::encoding::{
    after_frames, common_header_of, flat, lemma_after_frames, lemma_after_nothing,
    lemma_flat_cons, packet_prefix, packet_wire,
    parse_frames_spec, parse_packet_spec, wire_len, ParseError, ParsedPacketView,
};
use crate::protocol::wire::endian::{
    be16, be32, be64, lemma_be16_decode_encode, lemma_be32_decode_encode,
    lemma_be64_decode_encode,
};
use crate::protocol::wire::frames::{
    parse_frame_content, DataFrameHeader, DataFrameView, FrameType, FrameView,
    GetChunkFrameHeader, RateLimitFrameHeader,
};
use crate::protocol::wire::packets::{
    chunk_position, distinct_chunks, requests_of, ticket_frames, DataPacket, PacketType,
    PacketVariantView, TicketPacket, TicketView,
};
use crate::protocol::wire::verify::{
    crc64_ecma_182, signature_of, verification_outcome, PacketVerificationError,
    PacketVerifyType, VerificationView,
};
use crate::protocol::wire::{
    frame_wire, payload_bytes, payload_len, CommonFrameHeader, CommonPacketHeader, Packet,
    RawParts, SpecificFrameHeader, SpecificPacketHeader, COMMON_FRAME_HEADER_LEN,
    COMMON_PACKET_HEADER_LEN,
};

verus! {

/// A body that begins with a built frame parses to what the frame's content says,
/// followed by what the rest of the body says.
#[verifier::rlimit(40)]
pub proof fn lemma_parse_frames_step<H: SpecificFrameHeader>(
    info_length: nat,
    header: H,
    body: Option<Seq<u8>>,
    rest: Seq<u8>,
    frame: FrameView,
)
    requires
        COMMON_FRAME_HEADER_LEN + H::spec_raw_len() + payload_len(body) <= u16::MAX,
        parse_frame_content(
            info_length,
            header.spec_frame_type(),
            header.raw() + payload_bytes(body),
        ) == Some(frame),
    ensures
        parse_frames_spec(info_length, frame_wire(header, body) + rest) == after_frames(
            seq![frame],
            parse_frames_spec(info_length, rest),
        ),
        frame_wire(header, body).len() == COMMON_FRAME_HEADER_LEN + H::spec_raw_len()
            + payload_len(body),
{
    header.lemma_raw_len();
    let wire = frame_wire(header, body);
    let all = wire + rest;
    let frame_length = (COMMON_FRAME_HEADER_LEN + H::spec_raw_len() + payload_len(body)) as int;
    let common = CommonFrameHeader {
        frame_type: header.spec_frame_type().code(),
        frame_length: frame_length as u16,
    };
    lemma_be16_decode_encode(frame_length as u16);
    assert(wire.len() == frame_length);
    assert(all[0] == common.raw()[0]);
    assert(all.subrange(1, 3) =~= be16(frame_length as u16));
    assert(all.subrange(COMMON_FRAME_HEADER_LEN as int, frame_length) =~= header.raw()
        + payload_bytes(body));
    assert(all.subrange(frame_length, all.len() as int) =~= rest);
    assert(FrameType::of_code(header.spec_frame_type().code()) == Some(header.spec_frame_type()));
}

/// The content of a built chunk request says what the request says.
pub proof fn lemma_parse_get_chunk(info_length: nat, request: GetChunkFrameHeader)
    ensures
        parse_frame_content(info_length, FrameType::GetChunk, request.raw()) == Some(
            FrameView::GetChunk(request),
        ),
{
    let raw = request.raw();
    lemma_be32_decode_encode(request.chunk_id);
    lemma_be32_decode_encode(request.next_receive_offset);
    lemma_be32_decode_encode(request.receive_window_frames);
    assert(raw.subrange(0, 4) =~= be32(request.chunk_id));
    assert(raw.subrange(4, 8) =~= be32(request.next_receive_offset));
    assert(raw.subrange(8, 12) =~= be32(request.receive_window_frames));
}

/// The content of a built rate limit says what the rate limit says.
pub proof fn lemma_parse_rate_limit(info_length: nat, limit: RateLimitFrameHeader)
    ensures
        parse_frame_content(info_length, FrameType::RateLimit, limit.raw()) == Some(
            FrameView::RateLimit(limit),
        ),
{
    lemma_be32_decode_encode(limit.desired_max_kbps);
    assert(limit.raw().subrange(0, 4) =~= be32(limit.desired_max_kbps));
}

/// The content of a built data frame says what the data frame says.
pub proof fn lemma_parse_data<const INFO_LENGTH: usize>(
    header: DataFrameHeader<INFO_LENGTH>,
    data: Seq<u8>,
)
    ensures
        parse_frame_content(INFO_LENGTH as nat, FrameType::Data, header.raw() + data) == Some(
            FrameView::Data(
                DataFrameView {
                    chunk_id: header.chunk_id,
                    frame_offset: header.frame_offset,
                    transmission_info: header.transmission_info@,
                    data,
                },
            ),
        ),
{
    let content = header.raw() + data;
    lemma_be32_decode_encode(header.chunk_id);
    lemma_be32_decode_encode(header.frame_offset);
    assert(content.subrange(0, 4) =~= be32(header.chunk_id));
    assert(content.subrange(4, 8) =~= be32(header.frame_offset));
    assert(content.subrange(8, 8 + INFO_LENGTH as int) =~= header.transmission_info@);
    assert(content.subrange(8 + INFO_LENGTH as int, content.len() as int) =~= data);
}

/// What the frames of a ticket say: the rate limit first, if there is one, then the
/// requests in order.
pub open spec fn ticket_frame_views(ticket: TicketView) -> Seq<FrameView> {
    (match ticket.rate_limit {
        Some(r) => seq![FrameView::RateLimit(RateLimitFrameHeader { desired_max_kbps: r })],
        None => Seq::empty(),
    }) + Seq::new(ticket.chunks.len(), |i: int| FrameView::GetChunk(ticket.chunks[i]))
}

/// The bytes on the wire of each of a list of chunk requests.
pub open spec fn request_wires(chunks: Seq<GetChunkFrameHeader>) -> Seq<Seq<u8>> {
    Seq::new(chunks.len(), |i: int| frame_wire(chunks[i], None))
}

/// What each of a list of chunk requests says, as frames.
pub open spec fn request_views(chunks: Seq<GetChunkFrameHeader>) -> Seq<FrameView> {
    Seq::new(chunks.len(), |i: int| FrameView::GetChunk(chunks[i]))
}

/// The frames of a list of requests that names each chunk once hold exactly one
/// request for each chunk that the list asks for, and that is what the list asks.
pub proof fn lemma_one_request_for_each_chunk(chunks: Seq<GetChunkFrameHeader>, chunk_id: u32)
    requires
        distinct_chunks(chunks),
        requests_of(chunks).dom().contains(chunk_id),
    ensures
        exists|i: int|
            0 <= i < chunks.len() && #[trigger] request_views(chunks)[i] == FrameView::GetChunk(
                GetChunkFrameHeader {
                    chunk_id,
                    next_receive_offset: requests_of(chunks)[chunk_id].0,
                    receive_window_frames: requests_of(chunks)[chunk_id].1,
                },
            ),
        forall|i: int, j: int|
            0 <= i < chunks.len() && 0 <= j < chunks.len() && (#[trigger] chunks[i]).chunk_id
                == chunk_id && (#[trigger] chunks[j]).chunk_id == chunk_id ==> i == j,
{
    let at = chunk_position(chunks, chunk_id);
    assert(request_views(chunks)[at] == FrameView::GetChunk(chunks[at]));
    assert forall|i: int, j: int|
        0 <= i < chunks.len() && 0 <= j < chunks.len() && (#[trigger] chunks[i]).chunk_id
            == chunk_id && (#[trigger] chunks[j]).chunk_id == chunk_id implies i == j by {
        if i < j {
            assert(chunks[i].chunk_id != chunks[j].chunk_id);
        }
        if j < i {
            assert(chunks[j].chunk_id != chunks[i].chunk_id);
        }
    }
}

/// A list of chunk requests is its first request and the rest, on the wire and in
/// what it says.
pub proof fn lemma_requests_split(chunks: Seq<GetChunkFrameHeader>)
    requires
        chunks.len() > 0,
    ensures
        flat(request_wires(chunks)) == frame_wire(chunks[0], None) + flat(
            request_wires(chunks.subrange(1, chunks.len() as int)),
        ),
        request_views(chunks) == seq![FrameView::GetChunk(chunks[0])] + request_views(
            chunks.subrange(1, chunks.len() as int),
        ),
        frame_wire(chunks[0], None).len() == 15,
{
    let first = chunks[0];
    let tail = chunks.subrange(1, chunks.len() as int);
    assert(request_wires(chunks) =~= seq![frame_wire(first, None)] + request_wires(tail));
    lemma_flat_cons(frame_wire(first, None), request_wires(tail));
    assert(request_views(chunks) =~= seq![FrameView::GetChunk(first)] + request_views(tail));
    first.lemma_raw_len();
}

/// Built chunk requests take 15 bytes each.
pub proof fn lemma_requests_len(chunks: Seq<GetChunkFrameHeader>)
    ensures
        flat(request_wires(chunks)).len() == 15 * chunks.len(),
    decreases chunks.len(),
{
    if chunks.len() == 0 {
        assert(request_wires(chunks) =~= Seq::<Seq<u8>>::empty());
    } else {
        lemma_requests_split(chunks);
        lemma_requests_len(chunks.subrange(1, chunks.len() as int));
    }
}

/// A body that begins with built chunk requests parses to these requests, followed by
/// what the rest of the body says.
#[verifier::rlimit(40)]
pub proof fn lemma_parse_requests(info_length: nat, chunks: Seq<GetChunkFrameHeader>, rest: Seq<u8>)
    ensures
        parse_frames_spec(info_length, flat(request_wires(chunks)) + rest) == after_frames(
            request_views(chunks),
            parse_frames_spec(info_length, rest),
        ),
    decreases chunks.len(),
{
    let after = parse_frames_spec(info_length, rest);
    if chunks.len() == 0 {
        assert(request_wires(chunks) =~= Seq::<Seq<u8>>::empty());
        assert(flat(request_wires(chunks)) + rest =~= rest);
        assert(request_views(chunks) =~= Seq::<FrameView>::empty());
        lemma_after_nothing(after);
    } else {
        let first = chunks[0];
        let tail = chunks.subrange(1, chunks.len() as int);
        let tail_bytes = flat(request_wires(tail));
        let wire = frame_wire(first, None);
        lemma_requests_split(chunks);
        lemma_parse_requests(info_length, tail, rest);
        assert((wire + tail_bytes) + rest =~= wire + (tail_bytes + rest));
        lemma_parse_get_chunk(info_length, first);
        assert(first.raw() + payload_bytes(None) =~= first.raw());
        lemma_parse_frames_step(
            info_length,
            first,
            None,
            tail_bytes + rest,
            FrameView::GetChunk(first),
        );
        lemma_after_frames(seq![FrameView::GetChunk(first)], request_views(tail), after);
    }
}

/// The frames of a built ticket parse to what the ticket says.
#[verifier::rlimit(40)]
pub proof fn lemma_parse_ticket_frames(info_length: nat, ticket: TicketView)
    ensures
        parse_frames_spec(info_length, flat(ticket_frames(ticket))) == Ok::<
            Seq<FrameView>,
            ParseError,
        >(ticket_frame_views(ticket)),
        flat(ticket_frames(ticket)).len() == (if ticket.rate_limit is Some {
            7nat
        } else {
            0nat
        }) + 15 * ticket.chunks.len(),
{
    let requests = flat(request_wires(ticket.chunks));
    let nothing = Seq::<u8>::empty();
    let views = request_views(ticket.chunks);
    lemma_parse_requests(info_length, ticket.chunks, nothing);
    lemma_requests_len(ticket.chunks);
    assert(requests + nothing =~= requests);
    assert(views + Seq::<FrameView>::empty() =~= views);
    assert(parse_frames_spec(info_length, requests) == Ok::<Seq<FrameView>, ParseError>(views));
    match ticket.rate_limit {
        Some(r) => {
            let limit = RateLimitFrameHeader { desired_max_kbps: r };
            let wire = frame_wire(limit, None);
            assert(ticket_frames(ticket) =~= seq![wire] + request_wires(ticket.chunks));
            lemma_flat_cons(wire, request_wires(ticket.chunks));
            lemma_parse_rate_limit(info_length, limit);
            assert(limit.raw() + payload_bytes(None) =~= limit.raw());
            lemma_parse_frames_step(
                info_length,
                limit,
                None,
                requests,
                FrameView::RateLimit(limit),
            );
            assert(ticket_frame_views(ticket) =~= seq![FrameView::RateLimit(limit)] + views);
        },
        None => {
            assert(ticket_frames(ticket) =~= request_wires(ticket.chunks));
            assert(ticket_frame_views(ticket) =~= views);
        },
    }
}

/// A built packet that fits the MTU parses back: where its specific header and its
/// frames parse to `variant` and `frames`, the datagram parses to a packet of these,
/// unless verification fails.
#[verifier::rlimit(40)]
pub proof fn lemma_parse_built<P: Packet>(
    info_length: nat,
    packet: P,
    signer: KeyRingView,
    ring: KeyRingView,
    packet_id: u32,
    variant: PacketVariantView,
    frames: Seq<FrameView>,
)
    requires
        wire_len(packet) <= MTU,
        packet.spec_header().spec_packet_type().parse_header_spec(packet.spec_header().raw())
            == Some(variant),
        parse_frames_spec(info_length, flat(packet.spec_frames())) == Ok::<
            Seq<FrameView>,
            ParseError,
        >(frames),
    ensures
        parse_packet_spec(info_length, packet_wire(packet, signer, packet_id), ring) == (
        match verification_outcome(
            ring,
            variant.verification_data(
                packet_prefix(packet, packet_id),
                signature_of(
                    signer,
                    P::spec_verification_type(),
                    packet_prefix(packet, packet_id),
                ),
            ),
        ) {
            Err(e) => Err::<ParsedPacketView, ParseError>(ParseError::Verification(e)),
            Ok(_) => Ok::<ParsedPacketView, ParseError>(
                ParsedPacketView {
                    pkt: packet_wire(packet, signer, packet_id),
                    specific_packet_header: variant,
                    frames,
                },
            ),
        }),
{
    let header = packet.spec_header();
    header.lemma_raw_len();
    let prefix = packet_prefix(packet, packet_id);
    let tail = signature_of(signer, P::spec_verification_type(), prefix);
    let wire = packet_wire(packet, signer, packet_id);
    let body = flat(packet.spec_frames());
    let header_end = (COMMON_PACKET_HEADER_LEN + <P::Header as RawParts>::spec_raw_len()) as int;
    let body_end = header_end + body.len();
    let common = CommonPacketHeader {
        version: crate::constants::VERSION,
        packet_type: header.spec_packet_type().code(),
        header_length: header_end as u16,
        body_length: body.len() as u16,
        packet_id,
    };
    lemma_be16_decode_encode(header_end as u16);
    lemma_be16_decode_encode(body.len() as u16);
    lemma_be32_decode_encode(packet_id);
    assert(prefix.len() == body_end);
    assert(wire.subrange(0, 10) =~= common.raw());
    assert(wire[0] == common.raw()[0]);
    assert(wire[1] == common.raw()[1]);
    assert(wire.subrange(2, 4) =~= be16(header_end as u16));
    assert(wire.subrange(4, 6) =~= be16(body.len() as u16));
    assert(wire.subrange(6, 10) =~= be32(packet_id));
    assert(common_header_of(wire) == common);
    assert(wire.subrange(COMMON_PACKET_HEADER_LEN as int, header_end) =~= header.raw());
    assert(wire.subrange(0, body_end) =~= prefix);
    assert(wire.subrange(body_end, wire.len() as int) =~= tail);
    assert(wire.subrange(header_end, body_end) =~= body);
    assert(PacketType::of_code(header.spec_packet_type().code()) == Some(
        header.spec_packet_type(),
    ));
}

/// The length of a data packet on the wire: 29 bytes of headers and checksum, the
/// transmission info and the payload.
#[verifier::rlimit(40)]
pub proof fn lemma_data_packet_len<const INFO_LENGTH: usize>(packet: DataPacket<INFO_LENGTH>)
    ensures
        flat(packet.spec_frames()).len() == 11 + INFO_LENGTH + packet@.data.len(),
        wire_len(packet) == 29 + INFO_LENGTH + packet@.data.len(),
{
    packet.lemma_parts();
    packet.frame_header().lemma_raw_len();
    packet.spec_header().lemma_raw_len();
    let wire = frame_wire(packet.frame_header(), Some(packet@.data));
    assert(packet.spec_frames() =~= seq![wire]);
    lemma_flat_cons(wire, Seq::empty());
    assert(seq![wire] + Seq::<Seq<u8>>::empty() =~= seq![wire]);
    assert(flat(Seq::<Seq<u8>>::empty()) =~= Seq::<u8>::empty());
}

/// The length of a ticket on the wire: 114 bytes of headers and signature, 7 for the
/// rate limit and 15 for each request.
pub proof fn lemma_ticket_len(ticket: TicketPacket)
    ensures
        wire_len(ticket) == 114 + (if ticket@.rate_limit is Some {
            7nat
        } else {
            0nat
        }) + 15 * ticket@.chunks.len(),
{
    ticket.lemma_parts();
    ticket.spec_header().lemma_raw_len();
    lemma_parse_ticket_frames(0, ticket@);
}

/// The one frame of a data packet parses to what the packet says.
#[verifier::rlimit(40)]
pub proof fn lemma_parse_data_frames<const INFO_LENGTH: usize>(packet: DataPacket<INFO_LENGTH>)
    requires
        packet.buildable(),
    ensures
        parse_frames_spec(INFO_LENGTH as nat, flat(packet.spec_frames())) == Ok::<
            Seq<FrameView>,
            ParseError,
        >(seq![FrameView::Data(packet@)]),
        flat(packet.spec_frames()).len() == 11 + INFO_LENGTH + packet@.data.len(),
{
    packet.lemma_parts();
    let header = packet.frame_header();
    let data = packet@.data;
    let frame = FrameView::Data(packet@);
    let frames = packet.spec_frames();
    let wire = frame_wire(header, Some(data));
    let nothing = Seq::<u8>::empty();
    assert(frames =~= seq![wire]);
    lemma_flat_cons(wire, Seq::empty());
    assert(seq![wire] + Seq::<Seq<u8>>::empty() =~= frames);
    assert(flat(Seq::<Seq<u8>>::empty()) =~= nothing);
    assert(flat(frames) == wire + nothing);
    lemma_parse_data(header, data);
    assert(payload_bytes(Some(data)) == data);
    lemma_parse_frames_step(INFO_LENGTH as nat, header, Some(data), nothing, frame);
    assert(seq![frame] + Seq::<FrameView>::empty() =~= seq![frame]);
    assert(parse_frames_spec(INFO_LENGTH as nat, nothing) == Ok::<Seq<FrameView>, ParseError>(
        Seq::empty(),
    ));
    assert(wire + nothing =~= wire);
}

/// The checksum that is built for a packet that fits the MTU verifies.
#[verifier::rlimit(40)]
pub proof fn lemma_built_checksum_verifies<const INFO_LENGTH: usize>(
    packet: DataPacket<INFO_LENGTH>,
    signer: KeyRingView,
    ring: KeyRingView,
    packet_id: u32,
)
    requires
        wire_len(packet) <= MTU,
    ensures
        verification_outcome(
            ring,
            PacketVariantView::DataPacket.verification_data(
                packet_prefix(packet, packet_id),
                signature_of(signer, PacketVerifyType::CRC64, packet_prefix(packet, packet_id)),
            ),
        ) == Ok::<(), PacketVerificationError>(()),
        packet_wire(packet, signer, packet_id).len() == wire_len(packet),
{
    let prefix = packet_prefix(packet, packet_id);
    packet.spec_header().lemma_raw_len();
    assert(prefix.len() + 8 == wire_len(packet));
    crate::protocol::wire::verify::lemma_crc64_accepts_its_own(
        ring,
        prefix,
        signature_of(signer, PacketVerifyType::CRC64, prefix),
    );
}

/// A data packet that fits the MTU parses back to its one data frame, with the same
/// chunk, offset, transmission info and payload, whatever keys the two sides hold:
/// the checksum that was built is the checksum that is found.
#[verifier::rlimit(40)]
pub proof fn lemma_data_packet_round_trip<const INFO_LENGTH: usize>(
    packet: DataPacket<INFO_LENGTH>,
    signer: KeyRingView,
    ring: KeyRingView,
    packet_id: u32,
)
    requires
        wire_len(packet) <= MTU,
    ensures
        wire_len(packet) == 29 + INFO_LENGTH + packet@.data.len(),
        packet_wire(packet, signer, packet_id).len() == wire_len(packet),
        parse_packet_spec(INFO_LENGTH as nat, packet_wire(packet, signer, packet_id), ring) == Ok::<
            ParsedPacketView,
            ParseError,
        >(
            ParsedPacketView {
                pkt: packet_wire(packet, signer, packet_id),
                specific_packet_header: PacketVariantView::DataPacket,
                frames: seq![FrameView::Data(packet@)],
            },
        ),
{
    lemma_data_packet_len(packet);
    assert(packet.buildable()) by {
        packet.lemma_parts();
    }
    lemma_parse_data_frames(packet);
    lemma_built_checksum_verifies(packet, signer, ring, packet_id);
    lemma_parse_built(
        INFO_LENGTH as nat,
        packet,
        signer,
        ring,
        packet_id,
        PacketVariantView::DataPacket,
        seq![FrameView::Data(packet@)],
    );
}

/// A ticket that fits the MTU parses back to what it says: the signer's key and the
/// time of signing, the rate limit, if any, and one request for each chunk that it
/// names, unless the receiver's verification of the signature fails, which is then
/// the error.
#[verifier::rlimit(40)]
pub proof fn lemma_ticket_round_trip(
    info_length: nat,
    ticket: TicketPacket,
    signer: KeyRingView,
    ring: KeyRingView,
    packet_id: u32,
)
    requires
        wire_len(ticket) <= MTU,
    ensures
        wire_len(ticket) == 114 + (if ticket@.rate_limit is Some {
            7nat
        } else {
            0nat
        }) + 15 * ticket@.chunks.len(),
        parse_packet_spec(info_length, packet_wire(ticket, signer, packet_id), ring) == (
        match verification_outcome(
            ring,
            VerificationView::Ed25519 {
                pkt: packet_prefix(ticket, packet_id),
                pub_key: ticket@.pub_key,
                signature: signature_of(
                    signer,
                    PacketVerifyType::Ed25519,
                    packet_prefix(ticket, packet_id),
                ),
            },
        ) {
            Err(e) => Err::<ParsedPacketView, ParseError>(ParseError::Verification(e)),
            Ok(_) => Ok::<ParsedPacketView, ParseError>(
                ParsedPacketView {
                    pkt: packet_wire(ticket, signer, packet_id),
                    specific_packet_header: PacketVariantView::TicketPacket {
                        pub_key: ticket@.pub_key,
                        timestamp_ms: ticket@.timestamp_ms,
                    },
                    frames: ticket_frame_views(ticket@),
                },
            ),
        }),
{
    ticket.lemma_parts();
    let header = ticket.spec_header();
    header.lemma_raw_len();
    lemma_parse_ticket_frames(info_length, ticket@);
    lemma_be64_decode_encode(header.timestamp_ms);
    assert(header.raw().subrange(0, 32) =~= header.pubkey@);
    assert(header.raw().subrange(32, 40) =~= be64(header.timestamp_ms));
    let variant = PacketVariantView::TicketPacket {
        pub_key: ticket@.pub_key,
        timestamp_ms: ticket@.timestamp_ms,
    };
    lemma_parse_built(
        info_length,
        ticket,
        signer,
        ring,
        packet_id,
        variant,
        ticket_frame_views(ticket@),
    );
}

} // verus!
