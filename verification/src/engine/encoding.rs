//! The encoder of one chunk for one peer.
//!
//! The actor holds the encoder of its chunk and a pacing timer. An order from the
//! receiver sets the rate and raises the offset up to which symbols may go out, or
//! closes the actor. A tick of the timer lets a burst of symbols out. A timer left
//! without orders for too long closes the actor.
use vstd::prelude::*;

use crate::engine::{BusAddress, PeerAddr, SendingOrder};
use crate::protocol::coding::{symbol_fits, FrameSender};
use crate::protocol::wire::buffer::buffer_from_vec;
use crate::protocol::wire::frames::DataFrame;
use crate::util::timer::{
    SenderTimer, SenderTimerOutput, SenderTimerPoll, TimerView, EXIT_AFTER, MAX_BURST,
};

verus! {

/// The time between two symbols where the first order names none, in nanoseconds.
pub const DEFAULT_SENDING_INTERVAL: u64 = 20_000_000;

/// What the encoder of a chunk does after a tick.
#[derive(Debug)]
pub enum EncoderStep<const INFO_LENGTH: usize> {
    /// Send these data frames to the sender socket, for the peer, and tick again.
    Emit(Vec<DataFrame<INFO_LENGTH>>),
    /// Tick again at `wake_at`, or when an order comes.
    Wait { wake_at: u64 },
    /// The actor has ended.
    Close,
}

/// The state of the encoder of a chunk.
pub struct EncoderView {
    pub chunk_id: u32,
    pub peer: PeerAddr,
    /// What a decoder needs to know before it can take the first symbol.
    pub transmission_info: Seq<u8>,
    /// The offset up to which symbols may go out.
    pub max_frame_offset: u64,
    /// The offset of the last symbol that went out, 0 before the first.
    pub max_sent_offset: u32,
    /// The id of the symbol that goes out next.
    pub next_id: u32,
    /// Whether the code has a symbol left.
    pub can_send: bool,
    pub timer: TimerView,
    pub closed: bool,
}

/// The encoder actor of one chunk for one peer.
pub struct ChunkEncoder<FS: FrameSender<INFO_LENGTH>, const INFO_LENGTH: usize> {
    chunk_id: u32,
    encoder: FS,
    transmission_info: [u8; INFO_LENGTH],
    max_frame_offset: u64,
    max_sent_offset: u32,
    timer: SenderTimer,
    peer: PeerAddr,
    closed: bool,
}

impl<FS: FrameSender<INFO_LENGTH>, const INFO_LENGTH: usize> View for ChunkEncoder<
    FS,
    INFO_LENGTH,
> {
    type V = EncoderView;

    closed spec fn view(&self) -> EncoderView {
        EncoderView {
            chunk_id: self.chunk_id,
            peer: self.peer,
            transmission_info: self.transmission_info@,
            max_frame_offset: self.max_frame_offset,
            max_sent_offset: self.max_sent_offset,
            next_id: self.encoder.spec_next_id(),
            can_send: self.encoder.can_send(),
            timer: self.timer@,
            closed: self.closed,
        }
    }
}

/// The greater of two offsets.
pub open spec fn higher(a: u64, b: u64) -> u64 {
    if a < b {
        b
    } else {
        a
    }
}

/// What a burst of at most `burst` symbols is, from an actor that stood as `before`
/// says and stands as `after` says once they are out: the frames are of the actor's
/// chunk and carry its transmission info; their offsets are the ids of the encoder,
/// one after the other; each fits a data packet. A symbol goes out only while the
/// offset of the last one sent is below the ceiling and the code has a symbol left,
/// so that every frame but the last one has an offset below the ceiling; and the
/// burst ends before `burst` symbols are out only where the last one sent has
/// reached the ceiling or the code has none left.
pub open spec fn burst_from<const INFO_LENGTH: usize>(
    before: EncoderView,
    burst: int,
    frames: Seq<DataFrame<INFO_LENGTH>>,
    after: EncoderView,
) -> bool {
    &&& frames.len() <= burst
    &&& forall|j: int|
        0 <= j < frames.len() ==> {
            &&& (#[trigger] frames[j])@.chunk_id == before.chunk_id
            &&& frames[j]@.transmission_info == before.transmission_info
            &&& frames[j]@.frame_offset == before.next_id + j
            &&& symbol_fits(INFO_LENGTH as nat, frames[j]@.data.len())
        }
    &&& after == (EncoderView {
        max_sent_offset: after.max_sent_offset,
        next_id: after.next_id,
        can_send: after.can_send,
        ..before
    })
    &&& frames.len() == 0 ==> after == before
    &&& frames.len() > 0 ==> {
        &&& after.max_sent_offset == frames.last()@.frame_offset
        &&& before.max_sent_offset < before.max_frame_offset
        &&& before.can_send
    }
    &&& forall|j: int|
        0 <= j < frames.len() - 1 ==> (#[trigger] frames[j])@.frame_offset
            < before.max_frame_offset
    &&& frames.len() == burst || after.max_sent_offset >= after.max_frame_offset
        || !after.can_send
}

impl EncoderView {
    /// The actor after an order that came at `now`: the timer takes the rate and a
    /// new lease of life, the ceiling rises to that of the order where that is
    /// higher, and an order to close closes the actor. An actor that has ended
    /// takes no order.
    pub open spec fn after_order(self, order: SendingOrder, now: u64) -> EncoderView {
        if self.closed {
            self
        } else {
            EncoderView {
                timer: self.timer.after_set_rate(now, order.sending_interval),
                max_frame_offset: higher(self.max_frame_offset, order.offset_no_more_than),
                closed: order.close_now,
                ..self
            }
        }
    }
}

impl<FS: FrameSender<INFO_LENGTH>, const INFO_LENGTH: usize> ChunkEncoder<FS, INFO_LENGTH> {
    /// The bytes of the symbol with the id `id` of the actor's chunk.
    pub closed spec fn spec_symbol(&self, id: u32) -> Seq<u8> {
        self.encoder.spec_symbol(id)
    }

    /// The encoder actor of the chunk whose bytes are `chunk_data`, started by
    /// `start_order` from `peer` at `now`, where the code can encode the chunk from
    /// the offset that the order names.
    pub fn new(chunk_data: &[u8], start_order: &SendingOrder, peer: PeerAddr, now: u64) -> (actor:
        Option<Self>)
        requires
            start_order.well_formed(),
            now + EXIT_AFTER <= u64::MAX,
        ensures
            actor is Some <==> FS::accepts(chunk_data@, start_order.offset_next),
            actor matches Some(a) ==> {
                &&& a@.chunk_id == start_order.chunk_id
                &&& a@.peer == peer
                &&& a@.max_frame_offset == start_order.offset_next
                    + start_order.offset_no_more_than
                &&& a@.max_sent_offset == 0
                &&& a@.next_id == start_order.offset_next
                &&& a@.can_send
                &&& a@.transmission_info == FS::info_for(chunk_data@)
                &&& !a@.closed
                &&& a@.timer == (TimerView {
                    interval: match start_order.sending_interval {
                        Some(i) => i,
                        None => DEFAULT_SENDING_INTERVAL,
                    },
                    sleep_after: (now + crate::util::timer::STOP_AFTER) as u64,
                    exit_after: (now + EXIT_AFTER) as u64,
                    last_send: now,
                })
            },
    {
        let encoder = match FS::init(chunk_data, start_order.offset_next) {
            Some(encoder) => encoder,
            None => {
                return None;
            },
        };
        let transmission_info = encoder.get_transmission_info();
        let interval: u64 = match start_order.sending_interval {
            Some(i) => i,
            None => DEFAULT_SENDING_INTERVAL,
        };
        Some(
            ChunkEncoder {
                chunk_id: start_order.chunk_id,
                encoder,
                transmission_info,
                max_frame_offset: start_order.offset_next as u64 + start_order.offset_no_more_than,
                max_sent_offset: 0,
                timer: SenderTimer::new(interval, now),
                peer,
                closed: false,
            },
        )
    }

    /// The address under which the actor registers on the bus.
    pub fn address(&self) -> (addr: BusAddress)
        ensures
            addr == BusAddress::FrameEncoder(self@.chunk_id, self@.peer),
    {
        BusAddress::FrameEncoder(self.chunk_id, self.peer)
    }

    /// The peer that the actor sends to.
    pub fn peer(&self) -> (peer: PeerAddr)
        ensures
            peer == self@.peer,
    {
        self.peer
    }

    /// Whether the actor has ended.
    pub fn is_closed(&self) -> (closed: bool)
        ensures
            closed == self@.closed,
    {
        self.closed
    }

    /// Takes an order that came at `now`, and tells whether the actor has ended.
    pub fn on_order(&mut self, order: &SendingOrder, now: u64) -> (closed: bool)
        requires
            order.well_formed(),
            now + EXIT_AFTER <= u64::MAX,
        ensures
            final(self)@ == old(self)@.after_order(*order, now),
            closed == final(self)@.closed,
            forall|id: u32| #[trigger] final(self).spec_symbol(id) == old(self).spec_symbol(id),
    {
        if self.closed {
            return true;
        }
        self.timer.set_rate(now, order.sending_interval);
        if self.max_frame_offset < order.offset_no_more_than {
            self.max_frame_offset = order.offset_no_more_than;
        }
        if order.close_now {
            self.closed = true;
        }
        self.closed
    }

    /// The sender socket is gone: the actor ends.
    pub fn on_send_failure(&mut self)
        ensures
            final(self)@ == (EncoderView { closed: true, ..old(self)@ }),
            forall|id: u32| #[trigger] final(self).spec_symbol(id) == old(self).spec_symbol(id),
    {
        self.closed = true;
    }

    /// Lets out a burst of symbols, as many as `burst` at most.
    fn emit(&mut self, burst: usize) -> (frames: Vec<DataFrame<INFO_LENGTH>>)
        ensures
            burst_from(old(self)@, burst as int, frames@, final(self)@),
            forall|j: int|
                0 <= j < frames@.len() ==> (#[trigger] frames@[j])@.data == old(self).spec_symbol(
                    frames@[j]@.frame_offset,
                ),
            forall|id: u32| #[trigger] final(self).spec_symbol(id) == old(self).spec_symbol(id),
    {
        let mut frames: Vec<DataFrame<INFO_LENGTH>> = Vec::new();
        let mut sent: usize = 0;
        while sent < burst
            invariant
                0 <= sent <= burst,
                frames@.len() == sent,
                forall|j: int|
                    0 <= j < frames@.len() ==> {
                        &&& (#[trigger] frames@[j])@.chunk_id == old(self)@.chunk_id
                        &&& frames@[j]@.transmission_info == old(self)@.transmission_info
                        &&& frames@[j]@.frame_offset == old(self)@.next_id + j
                        &&& symbol_fits(INFO_LENGTH as nat, frames@[j]@.data.len())
                    },
                self@ == (EncoderView {
                    max_sent_offset: self@.max_sent_offset,
                    next_id: self@.next_id,
                    can_send: self@.can_send,
                    ..old(self)@
                }),
                sent == 0 ==> self@ == old(self)@,
                sent > 0 ==> self@.max_sent_offset == frames@.last()@.frame_offset,
                sent > 0 ==> old(self)@.max_sent_offset < old(self)@.max_frame_offset
                    && old(self)@.can_send,
                forall|j: int|
                    0 <= j < frames@.len() - 1 ==> (#[trigger] frames@[j])@.frame_offset
                        < old(self)@.max_frame_offset,
                self@.can_send ==> self@.next_id == old(self)@.next_id + sent,
                forall|j: int|
                    0 <= j < frames@.len() ==> (#[trigger] frames@[j])@.data
                        == old(self).spec_symbol(frames@[j]@.frame_offset),
                forall|id: u32| #[trigger] self.spec_symbol(id) == old(self).spec_symbol(id),
            ensures
                frames@.len() == burst || self@.max_sent_offset >= self@.max_frame_offset
                    || !self@.can_send,
            decreases burst - sent,
        {
            if self.max_sent_offset as u64 >= self.max_frame_offset {
                break;
            }
            if !self.encoder.has_next() {
                break;
            }
            let ghost before = *self;
            let (frame_offset, frame) = self.encoder.next_frame();
            assert(before.spec_symbol(frame_offset) == old(self).spec_symbol(frame_offset));
            let data_frame = DataFrame::new(
                self.chunk_id,
                frame_offset,
                self.transmission_info,
                buffer_from_vec(frame),
            );
            frames.push(data_frame);
            self.max_sent_offset = frame_offset;
            sent = sent + 1;
            proof {
                assert forall|id: u32| #[trigger]
                    self.spec_symbol(id) == old(self).spec_symbol(id) by {
                    assert(self.encoder.spec_symbol(id) == before.encoder.spec_symbol(id));
                    assert(before.spec_symbol(id) == old(self).spec_symbol(id));
                }
            }
        }
        frames
    }

    /// Asks the actor at `now` what to do: as the timer says, it lets out a burst of
    /// symbols, waits, or ends. An actor that has ended stays ended.
    pub fn on_tick(&mut self, now: u64) -> (step: EncoderStep<INFO_LENGTH>)
        ensures
            forall|id: u32| #[trigger] final(self).spec_symbol(id) == old(self).spec_symbol(id),
            step matches EncoderStep::Emit(frames) ==> forall|j: int|
                0 <= j < frames@.len() ==> (#[trigger] frames@[j])@.data == old(self).spec_symbol(
                    frames@[j]@.frame_offset,
                ),
            old(self)@.closed ==> step is Close && final(self)@ == old(self)@,
            !old(self)@.closed ==> match old(self)@.timer.poll_output(now) {
                SenderTimerPoll::Ready(SenderTimerOutput::Close) => step is Close && final(self)@
                    == (EncoderView { closed: true, ..old(self)@ }),
                SenderTimerPoll::Pending { wake_at } => step == (EncoderStep::<
                    INFO_LENGTH,
                >::Wait { wake_at }) && final(self)@ == old(self)@,
                SenderTimerPoll::Ready(SenderTimerOutput::Send(burst)) => {
                    &&& step matches EncoderStep::Emit(frames)
                    &&& burst <= MAX_BURST
                    &&& burst_from(
                        (EncoderView { timer: old(self)@.timer.after_poll(now), ..old(self)@ }),
                        burst as int,
                        frames@,
                        final(self)@,
                    )
                },
            },
    {
        if self.closed {
            return EncoderStep::Close;
        }
        match self.timer.poll(now) {
            SenderTimerPoll::Ready(SenderTimerOutput::Close) => {
                self.closed = true;
                EncoderStep::Close
            },
            SenderTimerPoll::Pending { wake_at } => EncoderStep::Wait { wake_at },
            SenderTimerPoll::Ready(SenderTimerOutput::Send(burst)) => {
                let frames = self.emit(burst);
                EncoderStep::Emit(frames)
            },
        }
    }
}

} // verus!
