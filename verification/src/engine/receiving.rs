//! The receiving side of the socket.
//!
//! The receiver socket routes the data frames that come in to the decoders of their
//! chunks, gathers the reports of the decoders, and every tick turns what it has
//! gathered into a ticket for the sender. A chunk that is reported finished leaves
//! the gathering at the next tick, and is named in the tickets of three ticks, so
//! that the loss of one ticket does not keep the sender sending.
use bytes::Bytes;
use std::collections::VecDeque;
use vstd::prelude::*;

use crate::engine::{BusAddress, BusMessage, ReceivingChunkReport};
use crate::constants::MTU;
use crate::protocol::key_ring::{ed25519_public_key, KeyRing, KeyRingView};
use crate::protocol::wire::buffer::concat;
use crate::protocol::wire::encoding::{
    packet_wire, parse_packet, wire_len, PacketExt, ParsedPacket,
};
use crate::protocol::wire::frames::{GetChunkFrameHeader, ParsedFrameVariant};
use crate::protocol::wire::packets::{
    distinct_chunks, part_count, part_of, requests_of, TicketPacket, TicketView,
};
use crate::protocol::wire::Packet;
use crate::util::chunk_map::{distinct_keys, lemma_position, map_of, ChunkMap};

verus! {

/// The rate that a receiver asks for where nothing else is configured, in kbps.
pub const DEFAULT_RATE_KBPS: u32 = 40960;

/// The time between two tickets, in nanoseconds.
pub const REPORT_PERIOD: u64 = 2_000_000_000;

/// How many tickets name a chunk after it was reported finished.
pub const EXITING_GENERATIONS: usize = 3;

/// The smallest window that a receiver asks for, in symbols.
pub const MIN_WINDOW: u32 = 8192;

/// What a ticket asks of the sender for a chunk that stands as `report` says: the
/// offset of the report, and a window of a fifth of that offset but no less than
/// [`MIN_WINDOW`] while the chunk is wanted, and of zero, which closes the sender,
/// once it is finished.
pub open spec fn request_for(report: ReceivingChunkReport) -> (u32, u32) {
    match report {
        ReceivingChunkReport::WantNext(n) => (
            n,
            if n / 5 > MIN_WINDOW {
                (n / 5) as u32
            } else {
                MIN_WINDOW
            },
        ),
        ReceivingChunkReport::Finished(n) => (n, 0),
    }
}

/// The reports of a gathering after one more report: the report of a chunk that is
/// new to the gathering is taken as it is, and that of a chunk that is known is
/// merged with what is known.
pub open spec fn with_report(
    reports: Map<u32, ReceivingChunkReport>,
    chunk_id: u32,
    report: ReceivingChunkReport,
) -> Map<u32, ReceivingChunkReport> {
    reports.insert(
        chunk_id,
        if reports.dom().contains(chunk_id) {
            reports[chunk_id].merge(report)
        } else {
            report
        },
    )
}

/// The reports gathered from nothing by a run of updates.
pub open spec fn gathered(updates: Seq<(u32, ReceivingChunkReport)>) -> Map<
    u32,
    ReceivingChunkReport,
>
    decreases updates.len(),
{
    if updates.len() == 0 {
        Map::empty()
    } else {
        with_report(gathered(updates.drop_last()), updates.last().0, updates.last().1)
    }
}

/// After any run of updates the gathering knows the chunks that the updates name,
/// and holds for each of them the latest report in the order of reports: one of the
/// reports that came for the chunk, which none of them comes after.
pub proof fn lemma_gathered_is_latest(updates: Seq<(u32, ReceivingChunkReport)>, chunk_id: u32)
    ensures
        gathered(updates).dom().contains(chunk_id) <==> exists|i: int|
            0 <= i < updates.len() && (#[trigger] updates[i]).0 == chunk_id,
        gathered(updates).dom().contains(chunk_id) ==> {
            &&& exists|i: int|
                0 <= i < updates.len() && #[trigger] updates[i] == (
                    chunk_id,
                    gathered(updates)[chunk_id],
                )
            &&& forall|i: int|
                0 <= i < updates.len() && (#[trigger] updates[i]).0 == chunk_id
                    ==> updates[i].1.rank() <= gathered(updates)[chunk_id].rank()
        },
    decreases updates.len(),
{
    if updates.len() > 0 {
        let before = updates.drop_last();
        let last = updates.last();
        let n = before.len() as int;
        lemma_gathered_is_latest(before, chunk_id);
        assert(updates[n] == last);
        assert forall|i: int| 0 <= i < n implies #[trigger] updates[i] == before[i] by {}
        if gathered(before).dom().contains(chunk_id) {
            let i = choose|i: int|
                0 <= i < before.len() && #[trigger] before[i] == (
                    chunk_id,
                    gathered(before)[chunk_id],
                );
            assert(updates[i] == before[i]);
            assert(updates[i].0 == chunk_id);
        }
        if gathered(updates).dom().contains(chunk_id) {
            let now = gathered(updates)[chunk_id];
            if last.0 == chunk_id {
                if gathered(before).dom().contains(chunk_id) && now == gathered(before)[chunk_id] {
                    let i = choose|i: int|
                        0 <= i < before.len() && #[trigger] before[i] == (
                            chunk_id,
                            gathered(before)[chunk_id],
                        );
                    assert(updates[i] == (chunk_id, now));
                } else {
                    assert(updates[n] == (chunk_id, now));
                }
            } else {
                let i = choose|i: int|
                    0 <= i < before.len() && #[trigger] before[i] == (
                        chunk_id,
                        gathered(before)[chunk_id],
                    );
                assert(updates[i] == (chunk_id, now));
            }
            assert forall|i: int|
                0 <= i < updates.len() && (#[trigger] updates[i]).0
                    == chunk_id implies updates[i].1.rank() <= now.rank() by {
                if i < n {
                    assert(before[i].0 == chunk_id);
                }
            }
        } else {
            assert forall|i: int| 0 <= i < updates.len() implies (#[trigger] updates[i]).0
                != chunk_id by {
                if i < n {
                    assert(before[i].0 == updates[i].0);
                }
            }
        }
    }
}

/// The reports of a gathering that say finished, or those that do not.
pub open spec fn reports_where(
    reports: Map<u32, ReceivingChunkReport>,
    finished: bool,
) -> Map<u32, ReceivingChunkReport> {
    Map::new(
        |id: u32| reports.dom().contains(id) && (reports[id] is Finished) == finished,
        |id: u32| reports[id],
    )
}

/// What the receiver socket has gathered.
pub struct ReporterView {
    /// The latest report of each chunk that is being received.
    pub active: Map<u32, ReceivingChunkReport>,
    /// The chunks that were reported finished at the last ticks, the latest tick
    /// first.
    pub exiting: Seq<Map<u32, ReceivingChunkReport>>,
}

impl ReporterView {
    /// Whether nothing is gathered.
    pub open spec fn is_empty(self) -> bool {
        &&& self.active == Map::<u32, ReceivingChunkReport>::empty()
        &&& forall|i: int|
            0 <= i < self.exiting.len() ==> #[trigger] self.exiting[i] == Map::<
                u32,
                ReceivingChunkReport,
            >::empty()
    }

    /// The gathering after a tick: the chunks that are finished leave the active
    /// ones and become the first of the exiting generations, of which the last one
    /// goes where there are three already.
    pub open spec fn after_tick(self) -> ReporterView {
        ReporterView {
            active: reports_where(self.active, false),
            exiting: seq![reports_where(self.active, true)] + (if self.exiting.len()
                >= EXITING_GENERATIONS {
                self.exiting.drop_last()
            } else {
                self.exiting
            }),
        }
    }

    /// What is asked of the sender after the first `n` exiting generations were
    /// gone through: for each chunk the request for its report in the last
    /// generation that names it, or for its active report where none does.
    pub open spec fn requests_upto(self, n: int) -> Map<u32, (u32, u32)>
        decreases n,
    {
        if n <= 0 {
            self.active.map_values(|r: ReceivingChunkReport| request_for(r))
        } else {
            self.requests_upto(n - 1).union_prefer_right(
                self.exiting[n - 1].map_values(|r: ReceivingChunkReport| request_for(r)),
            )
        }
    }

    /// What the ticket of a gathering asks of the sender.
    pub open spec fn requests(self) -> Map<u32, (u32, u32)> {
        self.requests_upto(self.exiting.len() as int)
    }
}

/// The gatherer of the reports of the decoders.
pub struct Reporter {
    activate_data: ChunkMap<ReceivingChunkReport>,
    exiting_data: VecDeque<ChunkMap<ReceivingChunkReport>>,
}

impl View for Reporter {
    type V = ReporterView;

    closed spec fn view(&self) -> ReporterView {
        ReporterView {
            active: self.activate_data@,
            exiting: Seq::new(self.exiting_data@.len(), |i: int| self.exiting_data@[i]@),
        }
    }
}

/// Puts the requests for the reports of one generation into a ticket.
fn fill_from(ticket: TicketPacket, reports: &ChunkMap<ReceivingChunkReport>) -> (filled:
    TicketPacket)
    ensures
        filled@.pub_key == ticket@.pub_key,
        filled@.timestamp_ms == ticket@.timestamp_ms,
        filled@.rate_limit == ticket@.rate_limit,
        distinct_chunks(filled@.chunks),
        requests_of(filled@.chunks) == requests_of(ticket@.chunks).union_prefer_right(
            reports@.map_values(|r: ReceivingChunkReport| request_for(r)),
        ),
{
    reports.entries_are_the_map();
    let ghost entries = reports.entries();
    let ghost start = requests_of(ticket@.chunks);
    let ghost convert = |r: ReceivingChunkReport| request_for(r);
    let mut filled = ticket;
    let mut i: usize = 0;
    proof {
        assert(map_of(entries.subrange(0, 0)) =~= Map::<u32, ReceivingChunkReport>::empty());
        assert(start.union_prefer_right(
            Map::<u32, ReceivingChunkReport>::empty().map_values(convert),
        ) =~= start);
    }
    while i < reports.len()
        invariant
            0 <= i <= entries.len(),
            entries == reports.entries(),
            distinct_keys(entries),
            convert == |r: ReceivingChunkReport| request_for(r),
            filled@.pub_key == ticket@.pub_key,
            filled@.timestamp_ms == ticket@.timestamp_ms,
            filled@.rate_limit == ticket@.rate_limit,
            start == requests_of(ticket@.chunks),
            requests_of(filled@.chunks) == start.union_prefer_right(
                map_of(entries.subrange(0, i as int)).map_values(convert),
            ),
        decreases entries.len() - i,
    {
        let chunk_id = reports.key_at(i);
        let report = *reports.value_at(i);
        let ghost before = map_of(entries.subrange(0, i as int));
        let ghost request = request_for(report);
        proof {
            let upto = entries.subrange(0, i + 1);
            assert(distinct_keys(upto)) by {
                assert forall|a: int, b: int| 0 <= a < b < upto.len() implies (#[trigger] upto[a]).0
                    != (#[trigger] upto[b]).0 by {
                    assert(entries[a].0 != entries[b].0);
                }
            }
            assert(distinct_keys(entries.subrange(0, i as int))) by {
                let head = entries.subrange(0, i as int);
                assert forall|a: int, b: int| 0 <= a < b < head.len() implies (#[trigger] head[a]).0
                    != (#[trigger] head[b]).0 by {
                    assert(entries[a].0 != entries[b].0);
                }
            }
            assert(!crate::util::chunk_map::has_key(entries.subrange(0, i as int), chunk_id)) by {
                let head = entries.subrange(0, i as int);
                if crate::util::chunk_map::has_key(head, chunk_id) {
                    let k = crate::util::chunk_map::key_position(head, chunk_id);
                    assert(entries[k].0 != entries[i as int].0);
                }
            }
            assert(upto =~= entries.subrange(0, i as int).push((chunk_id, report)));
            crate::util::chunk_map::lemma_put(
                entries.subrange(0, i as int),
                upto,
                chunk_id,
                report,
            );
            assert(map_of(upto) == before.insert(chunk_id, report));
            assert(start.union_prefer_right(before.insert(chunk_id, report).map_values(convert))
                =~= start.union_prefer_right(before.map_values(convert)).insert(chunk_id, request));
        }
        filled = match report {
            ReceivingChunkReport::WantNext(n) => {
                let window: u32 = if n / 5 > MIN_WINDOW {
                    n / 5
                } else {
                    MIN_WINDOW
                };
                filled.set_get_chunk(chunk_id, n, window)
            },
            ReceivingChunkReport::Finished(n) => filled.set_get_chunk(chunk_id, n, 0),
        };
        i = i + 1;
    }
    proof {
        assert(entries.subrange(0, entries.len() as int) =~= entries);
    }
    filled.names_each_chunk_once();
    filled
}

impl Default for Reporter {
    /// A gatherer that has gathered nothing.
    fn default() -> (reporter: Reporter)
        ensures
            reporter@.active == Map::<u32, ReceivingChunkReport>::empty(),
            reporter@.exiting.len() == 0,
    {
        Reporter::new()
    }
}

impl Reporter {
    #[verifier::type_invariant]
    spec fn well_formed(&self) -> bool {
        self.exiting_data@.len() <= EXITING_GENERATIONS
    }

    /// A gatherer that has gathered nothing.
    pub fn new() -> (reporter: Self)
        ensures
            reporter@.active == Map::<u32, ReceivingChunkReport>::empty(),
            reporter@.exiting.len() == 0,
    {
        Reporter { activate_data: ChunkMap::new(), exiting_data: VecDeque::new() }
    }

    /// Whether nothing is gathered.
    pub fn is_empty(&self) -> (b: bool)
        ensures
            b == self@.is_empty(),
            self@.exiting.len() <= EXITING_GENERATIONS,
    {
        proof {
            use_type_invariant(self);
        }
        if !self.activate_data.is_empty() {
            return false;
        }
        let mut i: usize = 0;
        while i < self.exiting_data.len()
            invariant
                0 <= i <= self.exiting_data@.len(),
                self.exiting_data@.len() <= EXITING_GENERATIONS,
                forall|j: int|
                    0 <= j < i ==> #[trigger] self@.exiting[j] == Map::<
                        u32,
                        ReceivingChunkReport,
                    >::empty(),
            decreases self.exiting_data@.len() - i,
        {
            if !self.exiting_data[i].is_empty() {
                assert(self@.exiting[i as int] == self.exiting_data@[i as int]@);
                return false;
            }
            i = i + 1;
        }
        true
    }

    /// Takes the report of a decoder: it is merged with what is known of the chunk.
    pub fn update(&mut self, chunk_id: u32, report: ReceivingChunkReport)
        ensures
            final(self)@.active == with_report(old(self)@.active, chunk_id, report),
            final(self)@.exiting == old(self)@.exiting,
    {
        proof {
            use_type_invariant(&*self);
        }
        let merged: ReceivingChunkReport = match self.activate_data.get(chunk_id) {
            Some(known) => if known.precedes(&report) {
                report
            } else {
                *known
            },
            None => report,
        };
        let mut taken = Reporter { activate_data: ChunkMap::new(), exiting_data: VecDeque::new() };
        core::mem::swap(self, &mut taken);
        let Reporter { activate_data, exiting_data } = taken;
        let mut active = activate_data;
        active.insert(chunk_id, merged);
        *self = Reporter { activate_data: active, exiting_data };
        assert(self@.exiting =~= old(self)@.exiting);
    }

    /// Parts the active reports into those that say finished and the others.
    fn part(active: ChunkMap<ReceivingChunkReport>) -> (parts: (
        ChunkMap<ReceivingChunkReport>,
        ChunkMap<ReceivingChunkReport>,
    ))
        ensures
            parts.0@ == reports_where(active@, true),
            parts.1@ == reports_where(active@, false),
    {
        active.entries_are_the_map();
        let ghost entries = active.entries();
        let mut finished: ChunkMap<ReceivingChunkReport> = ChunkMap::new();
        let mut wanted: ChunkMap<ReceivingChunkReport> = ChunkMap::new();
        let mut i: usize = 0;
        while i < active.len()
            invariant
                0 <= i <= entries.len(),
                entries == active.entries(),
                distinct_keys(entries),
                active@ == map_of(entries),
                forall|id: u32|
                    #[trigger] finished@.dom().contains(id) ==> active@.dom().contains(id)
                        && active@[id] is Finished && finished@[id] == active@[id],
                forall|id: u32|
                    #[trigger] wanted@.dom().contains(id) ==> active@.dom().contains(id)
                        && active@[id] is WantNext && wanted@[id] == active@[id],
                forall|j: int|
                    0 <= j < i ==> (if (#[trigger] entries[j]).1 is Finished {
                        finished@.dom().contains(entries[j].0)
                    } else {
                        wanted@.dom().contains(entries[j].0)
                    }),
            decreases entries.len() - i,
        {
            let chunk_id = active.key_at(i);
            let report = *active.value_at(i);
            if report.is_finished() {
                finished.insert(chunk_id, report);
            } else {
                wanted.insert(chunk_id, report);
            }
            i = i + 1;
        }
        proof {
            assert forall|id: u32|
                active@.dom().contains(id) && active@[id] is Finished implies
                    finished@.dom().contains(id) by {
                let p = crate::util::chunk_map::key_position(entries, id);
                lemma_position(entries, p);
                assert(entries[p].1 is Finished);
            }
            assert forall|id: u32|
                active@.dom().contains(id) && active@[id] is WantNext implies
                    wanted@.dom().contains(id) by {
                let p = crate::util::chunk_map::key_position(entries, id);
                lemma_position(entries, p);
                assert(!(entries[p].1 is Finished));
            }
            assert(finished@ =~= reports_where(active@, true));
            assert(wanted@ =~= reports_where(active@, false));
        }
        (finished, wanted)
    }

    /// Moves the gathering on by one tick.
    fn rotate(&mut self)
        ensures
            final(self)@ == old(self)@.after_tick(),
    {
        proof {
            use_type_invariant(&*self);
        }
        let mut taken = Reporter { activate_data: ChunkMap::new(), exiting_data: VecDeque::new() };
        core::mem::swap(self, &mut taken);
        let Reporter { activate_data, exiting_data } = taken;
        let mut exiting = exiting_data;
        let ghost before = Seq::new(exiting@.len(), |i: int| exiting@[i]@);
        if exiting.len() >= EXITING_GENERATIONS {
            let _ = exiting.pop_back();
        }
        let ghost kept = Seq::new(exiting@.len(), |i: int| exiting@[i]@);
        let (finished, wanted) = Self::part(activate_data);
        exiting.push_front(finished);
        *self = Reporter { activate_data: wanted, exiting_data: exiting };
        proof {
            assert(kept =~= (if before.len() >= EXITING_GENERATIONS {
                before.drop_last()
            } else {
                before
            }));
            assert(self@.exiting =~= seq![reports_where(old(self)@.active, true)] + kept);
        }
    }

    /// Puts what the gathering asks of the sender into a ticket that asks for
    /// nothing yet.
    pub fn fill(&self, ticket: TicketPacket) -> (filled: TicketPacket)
        requires
            ticket@.chunks.len() == 0,
        ensures
            filled@.pub_key == ticket@.pub_key,
            filled@.timestamp_ms == ticket@.timestamp_ms,
            filled@.rate_limit == ticket@.rate_limit,
            distinct_chunks(filled@.chunks),
            requests_of(filled@.chunks) == self@.requests(),
    {
        let ghost convert = |r: ReceivingChunkReport| request_for(r);
        proof {
            assert(requests_of(ticket@.chunks) =~= Map::<u32, (u32, u32)>::empty());
            assert(Map::<u32, (u32, u32)>::empty().union_prefer_right(
                self@.active.map_values(convert),
            ) =~= self@.active.map_values(convert));
        }
        let mut filled = fill_from(ticket, &self.activate_data);
        let mut i: usize = 0;
        while i < self.exiting_data.len()
            invariant
                0 <= i <= self.exiting_data@.len(),
                self@.exiting.len() == self.exiting_data@.len(),
                filled@.pub_key == ticket@.pub_key,
                filled@.timestamp_ms == ticket@.timestamp_ms,
                filled@.rate_limit == ticket@.rate_limit,
                distinct_chunks(filled@.chunks),
                requests_of(filled@.chunks) == self@.requests_upto(i as int),
            decreases self.exiting_data@.len() - i,
        {
            assert(self@.exiting[i as int] == self.exiting_data@[i as int]@);
            filled = fill_from(filled, &self.exiting_data[i]);
            i = i + 1;
        }
        filled
    }

    /// Makes the ticket of a tick: the gathering moves on by one tick, and the
    /// ticket, signed by the holder of `key_ring`'s private key and made now, asks
    /// for the rate `rate_kbps` and for what the gathering then asks.
    pub fn generate(&mut self, rate_kbps: u32, key_ring: &KeyRing) -> (ticket: TicketPacket)
        requires
            key_ring@.private_key is Some,
        ensures
            final(self)@ == old(self)@.after_tick(),
            ticket@.pub_key == ed25519_public_key(key_ring@.private_key.unwrap()),
            ticket@.rate_limit == Some(rate_kbps),
            distinct_chunks(ticket@.chunks),
            requests_of(ticket@.chunks) == final(self)@.requests(),
    {
        self.rotate();
        let ticket = TicketPacket::new(key_ring).set_rate_limit(rate_kbps);
        self.fill(ticket)
    }
}

/// Where the data frames among the frames of a packet go: each to the decoder of its
/// chunk, in the order in which they stand in the packet.
pub open spec fn routes_of<const INFO_LENGTH: usize>(
    frames: Seq<ParsedFrameVariant<INFO_LENGTH>>,
) -> Seq<(BusAddress, BusMessage<INFO_LENGTH>)>
    decreases frames.len(),
{
    if frames.len() == 0 {
        Seq::empty()
    } else {
        let head = routes_of(frames.drop_last());
        match frames.last() {
            ParsedFrameVariant::Data(frame) => head.push(
                (BusAddress::FrameDecoder(frame.chunk_id), BusMessage::ReceivingData(frame)),
            ),
            _ => head,
        }
    }
}

/// Routes the data frames of a packet to the decoders of their chunks.
pub fn route<const INFO_LENGTH: usize>(packet: ParsedPacket<INFO_LENGTH>) -> (routes: Vec<
    (BusAddress, BusMessage<INFO_LENGTH>),
>)
    ensures
        routes@ == routes_of(packet.frames@),
{
    let ghost all = packet.frames@;
    let mut routes: Vec<(BusAddress, BusMessage<INFO_LENGTH>)> = Vec::new();
    assert(all.subrange(0, 0) =~= Seq::<ParsedFrameVariant<INFO_LENGTH>>::empty());
    for frame in it: packet.frames
        invariant
            it.seq() == all,
            routes@ == routes_of(all.subrange(0, it.index() as int)),
    {
        let ghost i = it.index() as int;
        proof {
            assert(all.subrange(0, i + 1).drop_last() =~= all.subrange(0, i));
            assert(all.subrange(0, i + 1).last() == frame);
        }
        match frame {
            ParsedFrameVariant::Data(data_frame) => {
                let address = BusAddress::FrameDecoder(data_frame.chunk_id);
                routes.push((address, BusMessage::ReceivingData(data_frame)));
            },
            _ => {},
        }
    }
    assert(all.subrange(0, all.len() as int) =~= all);
    routes
}

/// The receiving side of the socket.
pub struct ReceivingSocket<const INFO_LENGTH: usize> {
    reporter: Reporter,
    rate_kbps: u32,
}

impl<const INFO_LENGTH: usize> ReceivingSocket<INFO_LENGTH> {
    /// What the socket has gathered.
    pub closed spec fn gathered(&self) -> ReporterView {
        self.reporter@
    }

    /// The rate that the socket asks the sender for, in kbps.
    pub closed spec fn spec_rate(&self) -> u32 {
        self.rate_kbps
    }

    /// A receiver socket that asks the sender for `rate_kbps`.
    pub fn new(rate_kbps: u32) -> (socket: Self)
        ensures
            socket.spec_rate() == rate_kbps,
            socket.gathered().is_empty(),
    {
        ReceivingSocket { reporter: Reporter::new(), rate_kbps }
    }

    /// Takes the report of a decoder.
    pub fn on_report(&mut self, chunk_id: u32, report: ReceivingChunkReport)
        ensures
            final(self).gathered().active == with_report(
                old(self).gathered().active,
                chunk_id,
                report,
            ),
            final(self).gathered().exiting == old(self).gathered().exiting,
            final(self).spec_rate() == old(self).spec_rate(),
    {
        self.reporter.update(chunk_id, report);
    }

    /// Takes a datagram: the data frames of a packet that parses and verifies go to
    /// the decoders of their chunks; any other datagram is dropped.
    pub fn on_datagram(&self, packet: Bytes, key_ring: &KeyRing) -> (routes: Vec<
        (BusAddress, BusMessage<INFO_LENGTH>),
    >)
        ensures
            crate::protocol::wire::encoding::parse_packet_spec(
                INFO_LENGTH as nat,
                crate::protocol::wire::buffer::contents(packet),
                key_ring@,
            ) is Err ==> routes@.len() == 0,
            crate::protocol::wire::encoding::parse_packet_spec(
                INFO_LENGTH as nat,
                crate::protocol::wire::buffer::contents(packet),
                key_ring@,
            ) is Ok ==> exists|parsed: ParsedPacket<INFO_LENGTH>|
                crate::protocol::wire::encoding::parse_packet_spec(
                    INFO_LENGTH as nat,
                    crate::protocol::wire::buffer::contents(packet),
                    key_ring@,
                ) == Ok::<
                    crate::protocol::wire::encoding::ParsedPacketView,
                    crate::protocol::wire::encoding::ParseError,
                >(parsed@) && routes@ == routes_of(parsed.frames@),
    {
        match parse_packet::<INFO_LENGTH>(packet, key_ring) {
            Ok(parsed) => route(parsed),
            Err(_) => Vec::new(),
        }
    }

    /// The tick of the clock: where anything is gathered, the gathering moves on
    /// and its ticket is built for the sender, in as many parts as it takes to keep
    /// each within the MTU. The parts get packet ids from `packet_id` on.
    pub fn on_tick(&mut self, key_ring: &KeyRing, packet_id: u32) -> (out: Vec<Vec<Bytes>>)
        requires
            key_ring@.private_key is Some,
        ensures
            final(self).spec_rate() == old(self).spec_rate(),
            old(self).gathered().is_empty() ==> out@.len() == 0 && final(self).gathered()
                == old(self).gathered(),
            !old(self).gathered().is_empty() ==> final(self).gathered()
                == old(self).gathered().after_tick() && exists|
                ticket: TicketPacket,
                parts: Seq<TicketPacket>,
            |
                {
                    &&& ticket@.pub_key == ed25519_public_key(key_ring@.private_key.unwrap())
                    &&& ticket@.rate_limit == Some(old(self).spec_rate())
                    &&& distinct_chunks(ticket@.chunks)
                    &&& requests_of(ticket@.chunks) == final(self).gathered().requests()
                    &&& #[trigger] tick_output(ticket, parts, out@, key_ring@, packet_id)
                },
    {
        let mut out: Vec<Vec<Bytes>> = Vec::new();
        if self.reporter.is_empty() {
            return out;
        }
        let ticket = self.reporter.generate(self.rate_kbps, key_ring);
        let parts = ticket.split();
        let ghost all = parts@;
        let mut id: u32 = packet_id;
        for part in it: parts
            invariant
                it.seq() == all,
                id == id_after(packet_id, it.index() as int),
                key_ring@.private_key is Some,
                out@.len() == it.index(),
                forall|k: int|
                    0 <= k < all.len() ==> (#[trigger] all[k]).buildable() && wire_len(all[k])
                        <= MTU,
                forall|k: int|
                    0 <= k < out@.len() ==> concat((#[trigger] out@[k])@) == packet_wire(
                        all[k],
                        key_ring@,
                        id_after(packet_id, k),
                    ),
        {
            out.push(part.build(key_ring, id));
            id = id.wrapping_add(1);
        }
        assert(tick_output(ticket, all, out@, key_ring@, packet_id));
        out
    }
}

/// The packet id that comes `k` ids after `first`, where ids wrap around.
pub open spec fn id_after(first: u32, k: int) -> u32 {
    ((first as int + k) % 0x1_0000_0000) as u32
}

/// What goes out at a tick for the ticket of the gathering: the datagrams of the
/// parts into which the ticket is cut, each part within the MTU and with the packet
/// id that comes as many ids after `packet_id` as parts stand before it.
pub open spec fn tick_output(
    ticket: TicketPacket,
    parts: Seq<TicketPacket>,
    out: Seq<Vec<Bytes>>,
    ring: KeyRingView,
    packet_id: u32,
) -> bool {
    &&& parts.len() == part_count(ticket@.chunks.len())
    &&& out.len() == parts.len()
    &&& forall|k: int|
        0 <= k < parts.len() ==> {
            &&& (#[trigger] parts[k])@ == (TicketView {
                chunks: part_of(ticket@.chunks, k),
                ..ticket@
            })
            &&& wire_len(parts[k]) <= MTU
            &&& concat(out[k]@) == packet_wire(parts[k], ring, id_after(packet_id, k))
        }
}

} // verus!
