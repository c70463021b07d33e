//! The two types of packet.
use bytes::Bytes;
use vstd::prelude::*;

use crate::constants::MTU;
use crate::protocol::key_ring::{ed25519_public_key, KeyRing};
use crate::protocol::wire::buffer::{buffer_as_slice, buffer_from_vec, buffer_slice, contents};
use crate::protocol::wire::encoding::{wire_len, FrameExt};
use crate::protocol::wire::endian::{be64, from_be64, get_be64, put_be64};
use crate::protocol::wire::frames::{
    DataFrame, DataFrameHeader, DataFrameView, GetChunkFrame, GetChunkFrameHeader, RateLimitFrame,
    RateLimitFrameHeader,
};
use crate::protocol::wire::round_trip::{lemma_data_packet_len, lemma_ticket_len};
use crate::protocol::wire::verify::{PacketVerificationData, PacketVerifyType, VerificationView};
use crate::protocol::wire::{
    frame_wire, BuiltFrame, Frame, Packet, RawParts, SpecificPacketHeader,
    COMMON_FRAME_HEADER_LEN,
};

verus! {

/// `SystemTime::elapsed` of the Unix epoch, in milliseconds, and nothing for a clock
/// that stands before the epoch. Nothing is promised of the value.
#[verifier::external_body]
fn since_epoch_ms() -> (ms: Option<u64>) {
    match std::time::UNIX_EPOCH.elapsed() {
        Ok(since) => Some(since.as_millis() as u64),
        Err(_) => None,
    }
}

/// The wall clock, in milliseconds since the Unix epoch; 0 on a clock that stands
/// before the epoch.
pub fn current_timestamp_ms() -> (now: u64) {
    match since_epoch_ms() {
        Some(ms) => ms,
        None => 0,
    }
}

/// The type of a packet, which its second byte tells.
#[derive(Debug, Clone, Copy, PartialEq, Eq)]
pub enum PacketType {
    Data,
    Ticket,
}

/// What the specific header of a packet says.
pub enum PacketVariantView {
    DataPacket,
    TicketPacket { pub_key: Seq<u8>, timestamp_ms: u64 },
}

/// The specific header of a packet as received.
#[derive(Debug)]
pub enum ParsedPacketVariant {
    DataPacket(),
    TicketPacket { pub_key: Bytes, timestamp_ms: u64 },
}

impl View for ParsedPacketVariant {
    type V = PacketVariantView;

    open spec fn view(&self) -> PacketVariantView {
        match self {
            ParsedPacketVariant::DataPacket() => PacketVariantView::DataPacket,
            ParsedPacketVariant::TicketPacket { pub_key, timestamp_ms } => {
                PacketVariantView::TicketPacket {
                    pub_key: contents(*pub_key),
                    timestamp_ms: *timestamp_ms,
                }
            },
        }
    }
}

/// Length of the specific header of a ticket.
pub const TICKET_HEADER_LEN: usize = 40;

impl PacketVariantView {
    /// What a packet is verified against: a data packet against its checksum, a
    /// ticket against its signature under the key that it names.
    pub open spec fn verification_data(
        self,
        pkt: Seq<u8>,
        verification_field: Seq<u8>,
    ) -> VerificationView {
        match self {
            PacketVariantView::DataPacket => VerificationView::CRC64 {
                pkt,
                crc64: verification_field,
            },
            PacketVariantView::TicketPacket { pub_key, .. } => VerificationView::Ed25519 {
                pkt,
                pub_key,
                signature: verification_field,
            },
        }
    }
}

impl ParsedPacketVariant {
    /// Pairs a packet with what it is verified against.
    pub fn build_verification_data<'a>(
        &'a self,
        pkt: &'a [u8],
        verification_field: &'a [u8],
    ) -> (data: PacketVerificationData<'a>)
        ensures
            data@ == self@.verification_data(pkt@, verification_field@),
    {
        match self {
            ParsedPacketVariant::DataPacket() => PacketVerificationData::CRC64 {
                pkt,
                crc64: verification_field,
            },
            ParsedPacketVariant::TicketPacket { pub_key, .. } => PacketVerificationData::Ed25519 {
                pkt,
                pub_key: buffer_as_slice(pub_key),
                signature: verification_field,
            },
        }
    }
}

impl PacketType {
    /// The byte that stands for the type on the wire.
    pub open spec fn code(self) -> u8 {
        match self {
            PacketType::Data => 0x81,
            PacketType::Ticket => 0x41,
        }
    }

    /// The type that a byte stands for, if any.
    pub open spec fn of_code(code: u8) -> Option<PacketType> {
        if code == 0x81 {
            Some(PacketType::Data)
        } else if code == 0x41 {
            Some(PacketType::Ticket)
        } else {
            None
        }
    }

    /// The byte that stands for the type on the wire.
    pub fn to_u8(self) -> (code: u8)
        ensures
            code == self.code(),
    {
        match self {
            PacketType::Data => 0x81,
            PacketType::Ticket => 0x41,
        }
    }

    /// The type that a byte stands for, if any.
    pub fn from_u8(code: u8) -> (t: Option<PacketType>)
        ensures
            t == Self::of_code(code),
    {
        if code == 0x81 {
            Some(PacketType::Data)
        } else if code == 0x41 {
            Some(PacketType::Ticket)
        } else {
            None
        }
    }

    /// What the specific header of a packet of this type says: nothing for a data
    /// packet, whose specific header is empty; the signer's public key and the time
    /// of signing for a ticket.
    pub open spec fn parse_header_spec(self, content: Seq<u8>) -> Option<PacketVariantView> {
        match self {
            PacketType::Data => if content.len() == 0 {
                Some(PacketVariantView::DataPacket)
            } else {
                None
            },
            PacketType::Ticket => if content.len() == TICKET_HEADER_LEN {
                Some(
                    PacketVariantView::TicketPacket {
                        pub_key: content.subrange(0, 32),
                        timestamp_ms: from_be64(content.subrange(32, 40)),
                    },
                )
            } else {
                None
            },
        }
    }

    /// Parses the specific header of a packet of this type, which is the bytes
    /// `start..end` of `packet`.
    pub fn try_parse(&self, packet: &Bytes, start: usize, end: usize) -> (r: Option<
        ParsedPacketVariant,
    >)
        requires
            start <= end <= contents(*packet).len(),
        ensures
            r is Some <==> self.parse_header_spec(
                contents(*packet).subrange(start as int, end as int),
            ) is Some,
            r matches Some(v) ==> Some(v@) == self.parse_header_spec(
                contents(*packet).subrange(start as int, end as int),
            ),
    {
        let ghost content = contents(*packet).subrange(start as int, end as int);
        match self {
            PacketType::Data => if start == end {
                Some(ParsedPacketVariant::DataPacket())
            } else {
                None
            },
            PacketType::Ticket => {
                if end - start != TICKET_HEADER_LEN {
                    return None;
                }
                let pub_key = buffer_slice(packet, start, start + 32);
                let timestamp_ms = get_be64(buffer_as_slice(packet), start + 32);
                proof {
                    assert(content.subrange(0, 32) =~= contents(pub_key));
                    assert(content.subrange(32, 40) =~= contents(*packet).subrange(
                        start + 32,
                        start + 40,
                    ));
                }
                Some(ParsedPacketVariant::TicketPacket { pub_key, timestamp_ms })
            },
        }
    }
}

impl From<PacketType> for u8 {
    fn from(packet_type: PacketType) -> (code: u8) {
        packet_type.to_u8()
    }
}

impl vstd::std_specs::convert::FromSpecImpl<PacketType> for u8 {
    open spec fn obeys_from_spec() -> bool {
        true
    }

    open spec fn from_spec(packet_type: PacketType) -> u8 {
        packet_type.code()
    }
}

/// The specific header of a data packet, which is empty.
#[derive(Debug, Clone, Copy)]
pub struct DataPacketHeader {}

impl RawParts for DataPacketHeader {
    open spec fn raw(&self) -> Seq<u8> {
        Seq::empty()
    }

    open spec fn spec_raw_len() -> nat {
        0
    }

    proof fn lemma_raw_len(&self) {
    }

    fn raw_len() -> (n: usize) {
        0
    }

    fn put_raw(&self, out: &mut Vec<u8>) {
        assert(out@ =~= old(out)@ + self.raw());
    }
}

impl SpecificPacketHeader for DataPacketHeader {
    open spec fn spec_packet_type(&self) -> PacketType {
        PacketType::Data
    }

    fn get_packet_type(&self) -> (t: PacketType) {
        PacketType::Data
    }
}

/// A data packet to send: one data frame.
#[derive(Debug)]
pub struct DataPacket<const INFO_LENGTH: usize> {
    header: DataPacketHeader,
    data: DataFrame<INFO_LENGTH>,
}

impl<const INFO_LENGTH: usize> View for DataPacket<INFO_LENGTH> {
    type V = DataFrameView;

    closed spec fn view(&self) -> DataFrameView {
        self.data@
    }
}

impl<const INFO_LENGTH: usize> DataPacket<INFO_LENGTH> {
    /// The data packet that carries the symbol `data`, the `offset`-th of chunk
    /// `chunk_id`.
    pub fn new(
        chunk_id: u32,
        offset: u32,
        transmission_info: [u8; INFO_LENGTH],
        data: Vec<u8>,
    ) -> (packet: Self)
        ensures
            packet@ == (DataFrameView {
                chunk_id,
                frame_offset: offset,
                transmission_info: transmission_info@,
                data: data@,
            }),
    {
        Self {
            header: DataPacketHeader {  },
            data: DataFrame::new(chunk_id, offset, transmission_info, buffer_from_vec(data)),
        }
    }

    /// The data packet that carries one data frame.
    pub fn from_frame(data: DataFrame<INFO_LENGTH>) -> (packet: Self)
        ensures
            packet@ == data@,
    {
        Self { header: DataPacketHeader {  }, data }
    }

    /// Tells whether the packet can be built: whether it fits the MTU.
    pub fn fits_mtu(&self) -> (ok: bool)
        ensures
            ok == (self.buildable() && wire_len(*self) <= MTU),
    {
        proof {
            lemma_data_packet_len(*self);
            self.lemma_parts();
        }
        let payload: usize = self.data.body_len();
        INFO_LENGTH <= MTU && payload <= MTU && 29 + INFO_LENGTH + payload <= MTU
    }

    /// The specific header of the packet's frame.
    pub closed spec fn frame_header(&self) -> DataFrameHeader<INFO_LENGTH> {
        self.data.spec_header()
    }

    /// The packet's one frame is the data frame that its view describes.
    pub proof fn lemma_parts(&self)
        ensures
            self.spec_frames().len() == 1,
            self.spec_frames()[0] == frame_wire(self.frame_header(), Some(self@.data)),
            self.frame_header().chunk_id == self@.chunk_id,
            self.frame_header().frame_offset == self@.frame_offset,
            self.frame_header().transmission_info@ == self@.transmission_info,
            self.buildable() <==> COMMON_FRAME_HEADER_LEN + 8 + INFO_LENGTH + self@.data.len()
                <= u16::MAX,
    {
        self.data.lemma_parts();
    }
}

impl<const INFO_LENGTH: usize> Packet for DataPacket<INFO_LENGTH> {
    type Header = DataPacketHeader;

    closed spec fn spec_header(&self) -> DataPacketHeader {
        self.header
    }

    closed spec fn spec_frames(&self) -> Seq<Seq<u8>> {
        seq![frame_wire(self.data.spec_header(), self.data.spec_body())]
    }

    closed spec fn buildable(&self) -> bool {
        COMMON_FRAME_HEADER_LEN + 8 + INFO_LENGTH + self@.data.len() <= u16::MAX
    }

    open spec fn spec_verification_type() -> PacketVerifyType {
        PacketVerifyType::CRC64
    }

    fn verification_type() -> (t: PacketVerifyType) {
        PacketVerifyType::CRC64
    }

    fn get_header(&self) -> (h: &DataPacketHeader) {
        &self.header
    }

    fn get_body(self) -> (frames: Vec<BuiltFrame>) {
        proof {
            self.data.lemma_parts();
        }
        let built = self.data.build();
        let mut frames: Vec<BuiltFrame> = Vec::new();
        frames.push(built);
        frames
    }
}

/// The specific header of a ticket.
#[derive(Debug, Clone, Copy)]
pub struct TicketPacketHeader {
    /// The public key of the receiver that signed the ticket.
    pub pubkey: [u8; 32],
    /// When the ticket was made, in milliseconds since the Unix epoch.
    pub timestamp_ms: u64,
}

impl RawParts for TicketPacketHeader {
    open spec fn raw(&self) -> Seq<u8> {
        self.pubkey@ + be64(self.timestamp_ms)
    }

    open spec fn spec_raw_len() -> nat {
        TICKET_HEADER_LEN as nat
    }

    proof fn lemma_raw_len(&self) {
    }

    fn raw_len() -> (n: usize) {
        TICKET_HEADER_LEN
    }

    fn put_raw(&self, out: &mut Vec<u8>) {
        let ghost before = out@;
        out.extend_from_slice(self.pubkey.as_slice());
        assert(out@ =~= before + self.pubkey@);
        put_be64(out, self.timestamp_ms);
        assert(out@ =~= before + self.raw());
    }
}

impl SpecificPacketHeader for TicketPacketHeader {
    open spec fn spec_packet_type(&self) -> PacketType {
        PacketType::Ticket
    }

    fn get_packet_type(&self) -> (t: PacketType) {
        PacketType::Ticket
    }
}

/// No two requests of a list name the same chunk.
pub open spec fn distinct_chunks(chunks: Seq<GetChunkFrameHeader>) -> bool {
    forall|i: int, j: int|
        0 <= i < j < chunks.len() ==> (#[trigger] chunks[i]).chunk_id != (
        #[trigger] chunks[j]).chunk_id
}

/// Whether a list of requests names chunk `chunk_id`.
pub open spec fn names_chunk(chunks: Seq<GetChunkFrameHeader>, chunk_id: u32) -> bool {
    exists|i: int| 0 <= i < chunks.len() && (#[trigger] chunks[i]).chunk_id == chunk_id
}

/// Where a list of requests names chunk `chunk_id`.
pub open spec fn chunk_position(chunks: Seq<GetChunkFrameHeader>, chunk_id: u32) -> int {
    choose|i: int| 0 <= i < chunks.len() && (#[trigger] chunks[i]).chunk_id == chunk_id
}

/// A list of requests after one more request: it takes the place of the request for
/// the same chunk, if there is one, and else comes last.
pub open spec fn with_request(
    chunks: Seq<GetChunkFrameHeader>,
    request: GetChunkFrameHeader,
) -> Seq<GetChunkFrameHeader> {
    if names_chunk(chunks, request.chunk_id) {
        chunks.update(chunk_position(chunks, request.chunk_id), request)
    } else {
        chunks.push(request)
    }
}

/// What a list of requests asks for: for each chunk that it names, the next offset
/// and the window.
pub open spec fn requests_of(chunks: Seq<GetChunkFrameHeader>) -> Map<u32, (u32, u32)> {
    Map::new(
        |id: u32| names_chunk(chunks, id),
        |id: u32|
            (
                chunks[chunk_position(chunks, id)].next_receive_offset,
                chunks[chunk_position(chunks, id)].receive_window_frames,
            ),
    )
}

/// One more request shadows an earlier one for the same chunk and leaves the others
/// as they are: the list still names each chunk once, and asks for what it asked
/// before, but for the chunk of the new request.
pub proof fn lemma_with_request(chunks: Seq<GetChunkFrameHeader>, request: GetChunkFrameHeader)
    requires
        distinct_chunks(chunks),
    ensures
        distinct_chunks(with_request(chunks, request)),
        requests_of(with_request(chunks, request)) == requests_of(chunks).insert(
            request.chunk_id,
            (request.next_receive_offset, request.receive_window_frames),
        ),
{
    let after = with_request(chunks, request);
    let want = requests_of(chunks).insert(
        request.chunk_id,
        (request.next_receive_offset, request.receive_window_frames),
    );
    let at: int = if names_chunk(chunks, request.chunk_id) {
        chunk_position(chunks, request.chunk_id)
    } else {
        chunks.len() as int
    };
    assert(after[at] == request);
    assert forall|i: int| 0 <= i < after.len() && i != at implies #[trigger] after[i]
        == chunks[i] && after[i].chunk_id != request.chunk_id by {
        if names_chunk(chunks, request.chunk_id) {
            assert(chunks[at].chunk_id == request.chunk_id);
        }
    }
    assert(distinct_chunks(after)) by {
        assert forall|i: int, j: int| 0 <= i < j < after.len() implies (
        #[trigger] after[i]).chunk_id != (#[trigger] after[j]).chunk_id by {
            if i != at && j != at {
                assert(chunks[i].chunk_id != chunks[j].chunk_id);
            }
        }
    }
    assert forall|id: u32| names_chunk(after, id) <==> want.dom().contains(id) by {
        if names_chunk(after, id) {
            let i = chunk_position(after, id);
            if i != at {
                assert(chunks[i].chunk_id == id);
            }
        }
        if names_chunk(chunks, id) {
            let i = chunk_position(chunks, id);
            assert(after[i].chunk_id == id);
        }
        if id == request.chunk_id {
            assert(after[at].chunk_id == id);
        }
    }
    assert forall|id: u32| names_chunk(after, id) implies requests_of(after)[id] == want[id] by {
        let i = chunk_position(after, id);
        if id == request.chunk_id {
            assert(i == at) by {
                if i != at {
                    assert(after[i].chunk_id != request.chunk_id);
                }
            }
        } else {
            assert(i != at);
            assert(chunks[i].chunk_id == id);
            let k = chunk_position(chunks, id);
            assert(k == i) by {
                if k < i {
                    assert(chunks[k].chunk_id != chunks[i].chunk_id);
                }
                if i < k {
                    assert(chunks[i].chunk_id != chunks[k].chunk_id);
                }
            }
        }
    }
    assert(requests_of(after).dom() =~= want.dom());
    assert(requests_of(after) =~= want);
}

/// The most requests that a ticket holds and still fits the MTU.
pub const MAX_TICKET_REQUESTS: usize = 91;

/// The number of tickets that it takes to hold `requests` requests: one for each
/// run of [`MAX_TICKET_REQUESTS`], and one where there is no request at all.
pub open spec fn part_count(requests: nat) -> nat {
    if requests == 0 {
        1
    } else {
        ((requests + MAX_TICKET_REQUESTS - 1) / (MAX_TICKET_REQUESTS as int)) as nat
    }
}

/// The `k`-th run of no more than [`MAX_TICKET_REQUESTS`] requests of a list.
pub open spec fn part_of(chunks: Seq<GetChunkFrameHeader>, k: int) -> Seq<GetChunkFrameHeader> {
    let start = MAX_TICKET_REQUESTS * k;
    let end = if start + MAX_TICKET_REQUESTS < chunks.len() {
        start + MAX_TICKET_REQUESTS
    } else {
        chunks.len() as int
    };
    chunks.subrange(start, end)
}

/// The runs of a list of requests hold every request of the list, each once: the
/// `i`-th request is the one at place `i % 91` of run `i / 91`.
pub proof fn lemma_parts_hold_all(chunks: Seq<GetChunkFrameHeader>, i: int)
    requires
        0 <= i < chunks.len(),
    ensures
        0 <= i / (MAX_TICKET_REQUESTS as int) < part_count(chunks.len()),
        0 <= i % (MAX_TICKET_REQUESTS as int) < part_of(
            chunks,
            i / (MAX_TICKET_REQUESTS as int),
        ).len(),
        part_of(chunks, i / (MAX_TICKET_REQUESTS as int))[i % (MAX_TICKET_REQUESTS as int)]
            == chunks[i],
{
}

/// What a ticket says.
pub struct TicketView {
    /// The public key of the receiver that signed the ticket.
    pub pub_key: Seq<u8>,
    /// When the ticket was made, in milliseconds since the Unix epoch.
    pub timestamp_ms: u64,
    /// The rate that the receiver asks for, in kbps.
    pub rate_limit: Option<u32>,
    /// The requests, in the order in which they are sent. No two are for one chunk.
    pub chunks: Seq<GetChunkFrameHeader>,
}

/// A ticket to send: the receiver's signed request for symbols.
#[derive(Debug)]
pub struct TicketPacket {
    header: TicketPacketHeader,
    rate_limit: Option<RateLimitFrame>,
    get_chunk: Vec<GetChunkFrame>,
}

impl View for TicketPacket {
    type V = TicketView;

    closed spec fn view(&self) -> TicketView {
        TicketView {
            pub_key: self.header.pubkey@,
            timestamp_ms: self.header.timestamp_ms,
            rate_limit: match self.rate_limit {
                Some(r) => Some(r.desired_max_kbps),
                None => None,
            },
            chunks: self.get_chunk@,
        }
    }
}

/// The bytes on the wire of each frame of a ticket: the rate limit first, if there
/// is one, then the requests in order.
pub open spec fn ticket_frames(ticket: TicketView) -> Seq<Seq<u8>> {
    (match ticket.rate_limit {
        Some(r) => seq![frame_wire(RateLimitFrameHeader { desired_max_kbps: r }, None)],
        None => Seq::empty(),
    }) + Seq::new(ticket.chunks.len(), |i: int| frame_wire(ticket.chunks[i], None))
}

impl TicketPacket {
    #[verifier::type_invariant]
    spec fn well_formed(&self) -> bool {
        distinct_chunks(self.get_chunk@)
    }

    /// An empty ticket signed by the holder of `key_ring`'s private key, made now.
    pub fn new(key_ring: &KeyRing) -> (ticket: Self)
        requires
            key_ring@.private_key is Some,
        ensures
            ticket@.pub_key == ed25519_public_key(key_ring@.private_key.unwrap()),
            ticket@.rate_limit is None,
            ticket@.chunks.len() == 0,
    {
        let pubkey = key_ring.derive_public_key().unwrap();
        Self::with_header(pubkey, current_timestamp_ms())
    }

    /// An empty ticket of the holder of `pubkey`, made at `timestamp_ms`.
    pub fn with_header(pubkey: [u8; 32], timestamp_ms: u64) -> (ticket: Self)
        ensures
            ticket@ == (TicketView {
                pub_key: pubkey@,
                timestamp_ms,
                rate_limit: None,
                chunks: Seq::empty(),
            }),
    {
        let ticket = Self {
            header: TicketPacketHeader { pubkey, timestamp_ms },
            rate_limit: None,
            get_chunk: Vec::new(),
        };
        assert(ticket@.chunks =~= Seq::empty());
        ticket
    }

    /// What every ticket holds to: it names each chunk once.
    pub fn names_each_chunk_once(&self)
        ensures
            distinct_chunks(self@.chunks),
    {
        proof {
            use_type_invariant(self);
        }
    }

    /// Asks the sender to keep to `rate_kbps`.
    pub fn set_rate_limit(self, rate_kbps: u32) -> (ticket: Self)
        ensures
            ticket@ == (TicketView { rate_limit: Some(rate_kbps), ..self@ }),
            distinct_chunks(ticket@.chunks),
    {
        proof {
            use_type_invariant(&self);
        }
        let mut ticket = self;
        ticket.rate_limit = Some(RateLimitFrame { desired_max_kbps: rate_kbps });
        ticket
    }

    /// Asks for the symbols of chunk `chunk_id` from `next_received_offset` on, as
    /// many as `receive_window`. The request replaces an earlier one for the same
    /// chunk.
    pub fn set_get_chunk(
        self,
        chunk_id: u32,
        next_received_offset: u32,
        receive_window: u32,
    ) -> (ticket: Self)
        ensures
            ticket@ == (TicketView {
                chunks: with_request(
                    self@.chunks,
                    GetChunkFrameHeader {
                        chunk_id,
                        next_receive_offset: next_received_offset,
                        receive_window_frames: receive_window,
                    },
                ),
                ..self@
            }),
            distinct_chunks(ticket@.chunks),
            requests_of(ticket@.chunks) == requests_of(self@.chunks).insert(
                chunk_id,
                (next_received_offset, receive_window),
            ),
    {
        proof {
            use_type_invariant(&self);
        }
        let request = GetChunkFrame {
            chunk_id,
            next_receive_offset: next_received_offset,
            receive_window_frames: receive_window,
        };
        let ghost before = self.get_chunk@;
        proof {
            lemma_with_request(before, request);
        }
        let mut ticket = self;
        let mut i: usize = 0;
        while i < ticket.get_chunk.len()
            invariant
                0 <= i <= before.len(),
                ticket.get_chunk@ == before,
                before == self@.chunks,
                request == (GetChunkFrameHeader {
                    chunk_id,
                    next_receive_offset: next_received_offset,
                    receive_window_frames: receive_window,
                }),
                ticket.header == self.header,
                ticket.rate_limit == self.rate_limit,
                distinct_chunks(before),
                forall|j: int| 0 <= j < i ==> (#[trigger] before[j]).chunk_id != chunk_id,
            decreases before.len() - i,
        {
            if ticket.get_chunk[i].chunk_id == chunk_id {
                proof {
                    assert(before[i as int].chunk_id == chunk_id);
                    assert(names_chunk(before, chunk_id));
                    let k = chunk_position(before, chunk_id);
                    assert(before[k].chunk_id == chunk_id);
                    if k < i {
                        assert(before[k].chunk_id != chunk_id);
                    }
                    if i < k {
                        assert(before[i as int].chunk_id != before[k].chunk_id);
                    }
                    assert(with_request(before, request) == before.update(i as int, request));
                    lemma_with_request(before, request);
                }
                let mut chunks = ticket.get_chunk;
                chunks.set(i, request);
                return Self {
                    header: ticket.header,
                    rate_limit: ticket.rate_limit,
                    get_chunk: chunks,
                };
            }
            i = i + 1;
        }
        proof {
            assert(!names_chunk(before, chunk_id));
            assert(distinct_chunks(before.push(request)));
        }
        let mut chunks = ticket.get_chunk;
        chunks.push(request);
        Self { header: ticket.header, rate_limit: ticket.rate_limit, get_chunk: chunks }
    }

    /// Cuts the ticket into tickets that fit the MTU: each has the ticket's header
    /// and rate limit and a run of no more than [`MAX_TICKET_REQUESTS`] of its
    /// requests; together they hold every request once, in order. A ticket that
    /// fits is its own one part.
    pub fn split(self) -> (parts: Vec<TicketPacket>)
        ensures
            parts@.len() == part_count(self@.chunks.len()),
            forall|k: int|
                0 <= k < parts@.len() ==> {
                    &&& (#[trigger] parts@[k])@ == (TicketView {
                        chunks: part_of(self@.chunks, k),
                        ..self@
                    })
                    &&& distinct_chunks(parts@[k]@.chunks)
                    &&& parts@[k].buildable()
                    &&& wire_len(parts@[k]) <= MTU
                },
    {
        proof {
            use_type_invariant(&self);
        }
        let ghost all = self.get_chunk@;
        let total: usize = self.get_chunk.len();
        let mut parts: Vec<TicketPacket> = Vec::new();
        let mut start: usize = 0;
        while start < total || parts.len() == 0
            invariant
                all == self.get_chunk@,
                total == all.len(),
                distinct_chunks(all),
                start <= total,
                start == MAX_TICKET_REQUESTS * parts@.len() || (start == total && parts@.len()
                    == part_count(total as nat)),
                start < total ==> parts@.len() < part_count(total as nat),
                parts@.len() <= part_count(total as nat),
                parts@.len() > 0 && start == total ==> parts@.len() == part_count(total as nat),
                forall|k: int|
                    0 <= k < parts@.len() ==> {
                        &&& (#[trigger] parts@[k])@ == (TicketView {
                            chunks: part_of(all, k),
                            ..self@
                        })
                        &&& distinct_chunks(parts@[k]@.chunks)
                        &&& parts@[k].buildable()
                        &&& wire_len(parts@[k]) <= MTU
                    },
            decreases total - start + (if parts@.len() == 0 { 1int } else { 0int }),
        {
            let end: usize = if total - start > MAX_TICKET_REQUESTS {
                start + MAX_TICKET_REQUESTS
            } else {
                total
            };
            let ghost k = parts@.len() as int;
            let mut chunks: Vec<GetChunkFrame> = Vec::new();
            let mut i: usize = start;
            while i < end
                invariant
                    start <= i <= end <= total,
                    all == self.get_chunk@,
                    total == all.len(),
                    chunks@ == all.subrange(start as int, i as int),
                decreases end - i,
            {
                chunks.push(self.get_chunk[i]);
                assert(chunks@ =~= all.subrange(start as int, i + 1));
                i = i + 1;
            }
            proof {
                assert(chunks@ =~= part_of(all, k));
                assert forall|a: int, b: int| 0 <= a < b < chunks@.len() implies (
                #[trigger] chunks@[a]).chunk_id != (#[trigger] chunks@[b]).chunk_id by {
                    assert(all[start + a].chunk_id != all[start + b].chunk_id);
                }
            }
            let part = TicketPacket {
                header: self.header,
                rate_limit: self.rate_limit,
                get_chunk: chunks,
            };
            proof {
                lemma_ticket_len(part);
                part.lemma_parts();
            }
            parts.push(part);
            start = end;
        }
        parts
    }

    /// Tells whether the ticket can be built: whether it fits the MTU.
    pub fn fits_mtu(&self) -> (ok: bool)
        ensures
            ok == (self.buildable() && wire_len(*self) <= MTU),
    {
        proof {
            lemma_ticket_len(*self);
            self.lemma_parts();
        }
        let head: usize = if self.rate_limit.is_some() {
            121
        } else {
            114
        };
        let n: usize = self.get_chunk.len();
        n <= MTU && head + 15 * n <= MTU
    }

    /// The ticket's header and frames are what its view says, and every ticket can
    /// be built.
    pub proof fn lemma_parts(&self)
        ensures
            self.spec_header().pubkey@ == self@.pub_key,
            self.spec_header().timestamp_ms == self@.timestamp_ms,
            self.spec_frames() == ticket_frames(self@),
            self.buildable(),
    {
    }
}

impl Packet for TicketPacket {
    type Header = TicketPacketHeader;

    closed spec fn spec_header(&self) -> TicketPacketHeader {
        self.header
    }

    closed spec fn spec_frames(&self) -> Seq<Seq<u8>> {
        ticket_frames(self@)
    }

    closed spec fn buildable(&self) -> bool {
        true
    }

    open spec fn spec_verification_type() -> PacketVerifyType {
        PacketVerifyType::Ed25519
    }

    fn verification_type() -> (t: PacketVerifyType) {
        PacketVerifyType::Ed25519
    }

    fn get_header(&self) -> (h: &TicketPacketHeader) {
        &self.header
    }

    fn get_body(self) -> (frames: Vec<BuiltFrame>) {
        let mut frames: Vec<BuiltFrame> = Vec::new();
        match self.rate_limit {
            Some(rate_limit) => {
                frames.push(rate_limit.build());
            },
            None => {},
        }
        let ghost head = frames@.len();
        let mut i: usize = 0;
        while i < self.get_chunk.len()
            invariant
                0 <= i <= self.get_chunk@.len(),
                head == (if self.rate_limit is Some {
                    1nat
                } else {
                    0nat
                }),
                frames@.len() == head + i,
                forall|j: int|
                    0 <= j < frames@.len() ==> (#[trigger] frames@[j]).wire() == ticket_frames(
                        self@,
                    )[j],
            decreases self.get_chunk@.len() - i,
        {
            let request: GetChunkFrame = self.get_chunk[i];
            frames.push(request.build());
            i = i + 1;
        }
        frames
    }
}

} // verus!
