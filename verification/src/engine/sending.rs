//! The sending side of the socket.
//!
//! The sender socket takes tickets from the network and turns each into orders for
//! the encoders of the chunks that it names; an order for a chunk that has no
//! encoder yet starts one, unless it is an order to close. The data frames that the
//! encoders hand in go out as data packets.
use bytes::Bytes;
use vstd::prelude::*;

use crate::constants::MTU;
use crate::engine::{BusAddress, PeerAddr, SendingOrder};
use crate::protocol::coding::symbol_fits;
use crate::protocol::key_ring::KeyRing;
use crate::protocol::wire::buffer::{concat, contents};
use crate::protocol::wire::encoding::{
    frames_view, packet_wire, parse_packet, parse_packet_spec, wire_len, PacketExt, ParseError,
    ParsedPacket, ParsedPacketView,
};
use crate::protocol::wire::frames::{DataFrame, FrameView, GetChunkFrameHeader, ParsedFrameVariant};
use crate::protocol::wire::packets::{DataPacket, PacketVariantView, ParsedPacketVariant};
use crate::util::chunk_map::ChunkMap;

verus! {

/// The time that a datagram of the MTU and its 20 bytes of IP header take at one
/// kbps, in nanoseconds: 8 ms for each byte.
pub const NANOS_PER_PACKET_AT_1_KBPS: u64 = 12_080_000_000;

/// The time between two symbols that keeps a sender to `rate_kbps`: the time that
/// one datagram takes at that rate. A rate of zero names no interval.
pub open spec fn interval_for(rate_kbps: u32) -> Option<u64> {
    if rate_kbps == 0 {
        None
    } else {
        Some((NANOS_PER_PACKET_AT_1_KBPS as int / rate_kbps as int) as u64)
    }
}

/// The time between two symbols that keeps a sender to `rate_kbps`.
pub fn sending_interval(rate_kbps: u32) -> (interval: Option<u64>)
    ensures
        interval == interval_for(rate_kbps),
        interval matches Some(i) ==> i > 0,
{
    if rate_kbps == 0 {
        None
    } else {
        let interval: u64 = NANOS_PER_PACKET_AT_1_KBPS / (rate_kbps as u64);
        assert(interval >= 2) by (nonlinear_arith)
            requires
                interval == 12_080_000_000int / rate_kbps as int,
                0 < rate_kbps <= 0xffff_ffff,
        ;
        Some(interval)
    }
}

/// The order that a chunk request makes, under the interval of its ticket: symbols
/// from the request's offset on, up to that offset plus the window; a window of
/// zero closes the encoder.
pub open spec fn order_for(
    request: GetChunkFrameHeader,
    interval: Option<u64>,
    now: u64,
) -> SendingOrder {
    SendingOrder {
        chunk_id: request.chunk_id,
        sending_interval: interval,
        time_stamp: now,
        offset_next: request.next_receive_offset,
        offset_no_more_than: (request.next_receive_offset + request.receive_window_frames) as u64,
        close_now: request.receive_window_frames == 0,
    }
}

/// The interval of a ticket: that of its rate limit, wherever among the frames it
/// stands, and that of the last one where the ticket holds more than one. A ticket
/// without a rate limit names no interval.
pub open spec fn ticket_interval(frames: Seq<FrameView>) -> Option<u64>
    decreases frames.len(),
{
    if frames.len() == 0 {
        None
    } else {
        match frames.last() {
            FrameView::RateLimit(limit) => interval_for(limit.desired_max_kbps),
            _ => ticket_interval(frames.drop_last()),
        }
    }
}

/// The orders that chunk requests make under one interval, by chunk: a later
/// request for a chunk takes the place of an earlier one.
pub open spec fn orders_under(frames: Seq<FrameView>, interval: Option<u64>, now: u64) -> Map<
    u32,
    SendingOrder,
>
    decreases frames.len(),
{
    if frames.len() == 0 {
        Map::empty()
    } else {
        let before = orders_under(frames.drop_last(), interval, now);
        match frames.last() {
            FrameView::GetChunk(request) => before.insert(
                request.chunk_id,
                order_for(request, interval, now),
            ),
            _ => before,
        }
    }
}

/// The orders that the frames of a ticket make, by chunk: each chunk request makes
/// an order, and every order names the interval of the ticket.
pub open spec fn orders_after(frames: Seq<FrameView>, now: u64) -> Map<u32, SendingOrder> {
    orders_under(frames, ticket_interval(frames), now)
}

/// The orders that a packet makes: those of its frames where it is a ticket, none
/// where it is not.
pub open spec fn orders_of(packet: ParsedPacketView, now: u64) -> Option<Map<u32, SendingOrder>> {
    match packet.specific_packet_header {
        PacketVariantView::TicketPacket { .. } => Some(orders_after(packet.frames, now)),
        PacketVariantView::DataPacket => None,
    }
}

/// Every order made under an interval is well-formed, where the interval is not of
/// zero length, is for the chunk that it stands under, and names that interval.
pub proof fn lemma_orders_under(
    frames: Seq<FrameView>,
    interval: Option<u64>,
    now: u64,
    chunk_id: u32,
)
    requires
        orders_under(frames, interval, now).dom().contains(chunk_id),
        interval matches Some(i) ==> i > 0,
    ensures
        orders_under(frames, interval, now)[chunk_id].well_formed(),
        orders_under(frames, interval, now)[chunk_id].chunk_id == chunk_id,
        orders_under(frames, interval, now)[chunk_id].time_stamp == now,
        orders_under(frames, interval, now)[chunk_id].sending_interval == interval,
    decreases frames.len(),
{
    if frames.len() > 0 {
        match frames.last() {
            FrameView::GetChunk(request) => {
                if request.chunk_id != chunk_id {
                    lemma_orders_under(frames.drop_last(), interval, now, chunk_id);
                }
            },
            _ => {
                lemma_orders_under(frames.drop_last(), interval, now, chunk_id);
            },
        }
    }
}

/// No ticket names an interval of zero length.
pub proof fn lemma_interval_positive(frames: Seq<FrameView>)
    ensures
        ticket_interval(frames) matches Some(i) ==> i > 0,
    decreases frames.len(),
{
    if frames.len() > 0 {
        match frames.last() {
            FrameView::RateLimit(limit) => {
                let rate = limit.desired_max_kbps;
                if rate != 0 {
                    assert(12_080_000_000int / rate as int >= 2) by (nonlinear_arith)
                        requires
                            0 < rate <= 0xffff_ffff,
                    ;
                }
            },
            _ => {
                lemma_interval_positive(frames.drop_last());
            },
        }
    }
}

/// All orders of one ticket name one interval, that of the ticket: the interval
/// of its rate limit, wherever it stands, and none where it has no rate limit.
pub proof fn lemma_one_interval(frames: Seq<FrameView>, now: u64, chunk_id: u32)
    requires
        orders_after(frames, now).dom().contains(chunk_id),
    ensures
        orders_after(frames, now)[chunk_id].sending_interval == ticket_interval(frames),
        orders_after(frames, now)[chunk_id].well_formed(),
        orders_after(frames, now)[chunk_id].chunk_id == chunk_id,
        orders_after(frames, now)[chunk_id].time_stamp == now,
{
    lemma_interval_positive(frames);
    lemma_orders_under(frames, ticket_interval(frames), now, chunk_id);
}

/// Finds the interval of a ticket.
fn interval_of<const INFO_LENGTH: usize>(frames: &Vec<ParsedFrameVariant<INFO_LENGTH>>) -> (interval:
    Option<u64>)
    ensures
        interval == ticket_interval(frames_view(frames@)),
{
    let ghost views = frames_view(frames@);
    let mut interval: Option<u64> = None;
    let mut i: usize = 0;
    assert(views.subrange(0, 0) =~= Seq::<FrameView>::empty());
    while i < frames.len()
        invariant
            0 <= i <= frames@.len(),
            views == frames_view(frames@),
            interval == ticket_interval(views.subrange(0, i as int)),
        decreases frames@.len() - i,
    {
        proof {
            assert(views.subrange(0, i + 1).drop_last() =~= views.subrange(0, i as int));
            assert(views.subrange(0, i + 1).last() == frames@[i as int]@);
        }
        match &frames[i] {
            ParsedFrameVariant::RateLimit(header) => {
                interval = sending_interval(header.desired_max_kbps);
            },
            _ => {},
        }
        i = i + 1;
    }
    assert(views.subrange(0, views.len() as int) =~= views);
    interval
}

/// Turns a packet that came at `now` into the orders that it makes, by chunk. A
/// packet that is no ticket makes none.
pub fn build_sending_order<const INFO_LENGTH: usize>(
    packet: &ParsedPacket<INFO_LENGTH>,
    now: u64,
) -> (orders: Option<ChunkMap<SendingOrder>>)
    ensures
        orders is Some <==> orders_of(packet@, now) is Some,
        orders matches Some(o) ==> Some(o@) == orders_of(packet@, now),
{
    match &packet.specific_packet_header {
        ParsedPacketVariant::TicketPacket { .. } => {},
        ParsedPacketVariant::DataPacket() => {
            return None;
        },
    }
    let ghost frames = frames_view(packet.frames@);
    let interval = interval_of(&packet.frames);
    let mut orders: ChunkMap<SendingOrder> = ChunkMap::new();
    let mut i: usize = 0;
    assert(frames.subrange(0, 0) =~= Seq::<FrameView>::empty());
    while i < packet.frames.len()
        invariant
            0 <= i <= packet.frames@.len(),
            frames == frames_view(packet.frames@),
            orders@ == orders_under(frames.subrange(0, i as int), interval, now),
        decreases packet.frames@.len() - i,
    {
        proof {
            assert(frames.subrange(0, i + 1).drop_last() =~= frames.subrange(0, i as int));
            assert(frames.subrange(0, i + 1).last() == packet.frames@[i as int]@);
        }
        match &packet.frames[i] {
            ParsedFrameVariant::GetChunk(header) => {
                let order = SendingOrder {
                    chunk_id: header.chunk_id,
                    sending_interval: interval,
                    time_stamp: now,
                    offset_next: header.next_receive_offset,
                    offset_no_more_than: header.next_receive_offset as u64
                        + header.receive_window_frames as u64,
                    close_now: header.receive_window_frames == 0,
                };
                orders.insert(header.chunk_id, order);
            },
            _ => {},
        }
        i = i + 1;
    }
    assert(frames.subrange(0, frames.len() as int) =~= frames);
    Some(orders)
}

/// The sending side of the socket.
pub struct SendingSocket<const INFO_LENGTH: usize> {}

impl<const INFO_LENGTH: usize> SendingSocket<INFO_LENGTH> {
    /// A sender socket.
    pub fn new() -> (socket: Self) {
        SendingSocket {  }
    }

    /// Takes a datagram that came from `peer` at `now`: a ticket that parses and
    /// verifies makes its orders, each for the encoder of its chunk for that peer;
    /// any other datagram makes none.
    pub fn on_datagram(
        &self,
        packet: Bytes,
        peer: PeerAddr,
        key_ring: &KeyRing,
        now: u64,
    ) -> (orders: Vec<(BusAddress, SendingOrder)>)
        ensures
            forall|j: int|
                0 <= j < orders@.len() ==> {
                    &&& (#[trigger] orders@[j]).0 == BusAddress::FrameEncoder(
                        orders@[j].1.chunk_id,
                        peer,
                    )
                    &&& orders@[j].1.well_formed()
                    &&& orders@[j].1.time_stamp == now
                },
            forall|j: int, k: int|
                0 <= j < k < orders@.len() ==> (#[trigger] orders@[j]).1.chunk_id != (
                #[trigger] orders@[k]).1.chunk_id,
            match parse_packet_spec(INFO_LENGTH as nat, contents(packet), key_ring@) {
                Err(_) => orders@.len() == 0,
                Ok(parsed) => match orders_of(parsed, now) {
                    None => orders@.len() == 0,
                    Some(made) => {
                        &&& forall|j: int|
                            0 <= j < orders@.len() ==> (#[trigger] orders@[j]).1.sending_interval
                                == ticket_interval(parsed.frames)
                        &&& forall|j: int|
                            0 <= j < orders@.len() ==> made.dom().contains(
                                (#[trigger] orders@[j]).1.chunk_id,
                            ) && made[orders@[j].1.chunk_id] == orders@[j].1
                        &&& forall|id: u32| #[trigger]
                            made.dom().contains(id) ==> exists|j: int|
                                0 <= j < orders@.len() && (#[trigger] orders@[j]).1.chunk_id == id
                    },
                },
            },
    {
        let parsed = match parse_packet::<INFO_LENGTH>(packet, key_ring) {
            Ok(parsed) => parsed,
            Err(_) => {
                return Vec::new();
            },
        };
        let made = match build_sending_order(&parsed, now) {
            Some(made) => made,
            None => {
                return Vec::new();
            },
        };
        made.entries_are_the_map();
        let ghost entries = made.entries();
        let ghost frames = parsed@.frames;
        let mut orders: Vec<(BusAddress, SendingOrder)> = Vec::new();
        let mut i: usize = 0;
        while i < made.len()
            invariant
                0 <= i <= entries.len(),
                entries == made.entries(),
                crate::util::chunk_map::distinct_keys(entries),
                made@ == crate::util::chunk_map::map_of(entries),
                made@ == orders_after(frames, now),
                orders@.len() == i,
                forall|j: int|
                    0 <= j < i ==> {
                        &&& (#[trigger] orders@[j]).0 == BusAddress::FrameEncoder(
                            orders@[j].1.chunk_id,
                            peer,
                        )
                        &&& orders@[j].1 == entries[j].1
                        &&& orders@[j].1.chunk_id == entries[j].0
                        &&& orders@[j].1.well_formed()
                        &&& orders@[j].1.time_stamp == now
                        &&& orders@[j].1.sending_interval == ticket_interval(frames)
                    },
            decreases entries.len() - i,
        {
            let chunk_id = made.key_at(i);
            let order = *made.value_at(i);
            proof {
                lemma_one_interval(frames, now, chunk_id);
            }
            orders.push((BusAddress::FrameEncoder(chunk_id, peer), order));
            i = i + 1;
        }
        proof {
            assert forall|j: int, k: int| 0 <= j < k < orders@.len() implies (
            #[trigger] orders@[j]).1.chunk_id != (#[trigger] orders@[k]).1.chunk_id by {
                assert(entries[j].0 != entries[k].0);
            }
            assert forall|j: int| 0 <= j < orders@.len() implies made@.dom().contains(
                (#[trigger] orders@[j]).1.chunk_id,
            ) && made@[orders@[j].1.chunk_id] == orders@[j].1 by {
                crate::util::chunk_map::lemma_position(entries, j);
            }
            assert forall|id: u32| #[trigger] made@.dom().contains(id) implies exists|j: int|
                0 <= j < orders@.len() && (#[trigger] orders@[j]).1.chunk_id == id by {
                let p = crate::util::chunk_map::key_position(entries, id);
                assert(orders@[p].1.chunk_id == id);
            }
        }
        orders
    }

    /// Whether an order that found no encoder under its address starts one: every
    /// order does but an order to close.
    pub fn starts_encoder(&self, order: &SendingOrder) -> (start: bool)
        ensures
            start == !order.close_now,
    {
        !order.close_now
    }

    /// Takes a data frame from an encoder: the datagram of the data packet that
    /// carries it, or nothing where the packet does not fit the MTU.
    pub fn on_frame(
        &self,
        frame: DataFrame<INFO_LENGTH>,
        key_ring: &KeyRing,
        packet_id: u32,
    ) -> (out: Option<Vec<Bytes>>)
        ensures
            out is Some <==> symbol_fits(INFO_LENGTH as nat, frame@.data.len()),
            out matches Some(buffers) ==> exists|packet: DataPacket<INFO_LENGTH>|
                packet@ == frame@ && #[trigger] wire_len(packet) <= MTU && concat(buffers@)
                    == packet_wire(packet, key_ring@, packet_id),
    {
        let packet = DataPacket::from_frame(frame);
        proof {
            crate::protocol::wire::round_trip::lemma_data_packet_len(packet);
            packet.lemma_parts();
        }
        if !packet.fits_mtu() {
            return None;
        }
        Some(packet.build(key_ring, packet_id))
    }
}

} // verus!
