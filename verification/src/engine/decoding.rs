//! The decoder of one chunk.
//!
//! The actor asks for the chunk from its first symbol, makes its decoder from the
//! transmission info of the first data frame that comes, and feeds every frame, the
//! first one too, to the decoder, reporting after each how far it has come, until
//! the chunk is whole.
use vstd::prelude::*;

use crate::engine::{BusAddress, ReceivingChunkReport};
use crate::protocol::coding::{expected_after, FrameReceiver};
use crate::protocol::wire::buffer::{buffer_as_slice, contents};
use crate::protocol::wire::frames::ParsedDataFrame;

verus! {

/// Where the decoder of a chunk stands.
#[derive(Debug, Clone, Copy, PartialEq, Eq, Structural)]
pub enum DecoderPhase {
    AwaitingFirstFrame,
    Decoding,
    Completed,
    Failed,
}

/// What the decoder of a chunk does after a frame.
#[derive(Debug)]
pub enum DecoderStep {
    /// Send the report to the receiver socket and go on receiving.
    Continue(ReceivingChunkReport),
    /// The chunk is whole: send the report to the receiver socket and hand the chunk
    /// to the caller.
    Completed { report: ReceivingChunkReport, data: Vec<u8> },
    /// No decoder could be made from the first frame: give up.
    Failed,
    /// The actor had ended before the frame came.
    Closed,
}

/// What follows from what the decoder made of a frame: a completed chunk is
/// reported as finished, an incomplete one as wanting the id that the decoder
/// expects next.
pub open spec fn step_after(outcome: Option<Vec<u8>>, expected: u32) -> DecoderStep {
    match outcome {
        Some(data) => DecoderStep::Completed {
            report: ReceivingChunkReport::Finished(expected),
            data,
        },
        None => DecoderStep::Continue(ReceivingChunkReport::WantNext(expected)),
    }
}

/// Whether `step` is the step that follows from what the decoder made of a frame,
/// which is the chunk `outcome` or nothing, and from the id that it expects next.
pub open spec fn is_step_after(outcome: Option<Seq<u8>>, expected: u32, step: DecoderStep) -> bool {
    match outcome {
        Some(chunk) => step matches DecoderStep::Completed { report, data } && report
            == ReceivingChunkReport::Finished(expected) && data@ == chunk,
        None => step == DecoderStep::Continue(ReceivingChunkReport::WantNext(expected)),
    }
}

/// The phase that a step leads to.
pub open spec fn phase_after(step: DecoderStep, before: DecoderPhase) -> DecoderPhase {
    match step {
        DecoderStep::Continue(_) => DecoderPhase::Decoding,
        DecoderStep::Completed { .. } => DecoderPhase::Completed,
        DecoderStep::Failed => DecoderPhase::Failed,
        DecoderStep::Closed => before,
    }
}

/// Decides what to do after the decoder has taken a frame, `outcome` being what the
/// decoder returned and `expected` the id that it expects next.
pub fn decide(outcome: Option<Vec<u8>>, expected: u32) -> (step: DecoderStep)
    ensures
        step == step_after(outcome, expected),
{
    match outcome {
        Some(data) => DecoderStep::Completed {
            report: ReceivingChunkReport::Finished(expected),
            data,
        },
        None => DecoderStep::Continue(ReceivingChunkReport::WantNext(expected)),
    }
}

/// The decoder actor of one chunk.
pub struct ChunkDecoder<FR: FrameReceiver<INFO_LENGTH>, const INFO_LENGTH: usize> {
    chunk_id: u32,
    phase: DecoderPhase,
    decoder: Option<FR>,
}

impl<FR: FrameReceiver<INFO_LENGTH>, const INFO_LENGTH: usize> ChunkDecoder<FR, INFO_LENGTH> {
    #[verifier::type_invariant]
    spec fn well_formed(&self) -> bool {
        self.phase is Decoding ==> self.decoder is Some
    }

    /// The chunk that the actor decodes.
    pub closed spec fn spec_chunk_id(&self) -> u32 {
        self.chunk_id
    }

    /// Where the actor stands.
    pub closed spec fn spec_phase(&self) -> DecoderPhase {
        self.phase
    }

    /// What the decoder makes of a symbol, as it stands: the chunk, where the symbol
    /// completes it.
    pub closed spec fn spec_outcome(&self, frame_id: u32, frame: Seq<u8>) -> Option<Seq<u8>> {
        match self.decoder {
            Some(d) => d.spec_outcome(frame_id, frame),
            None => None,
        }
    }

    /// The id that the decoder expects next, once there is a decoder.
    pub closed spec fn spec_expected(&self) -> u32 {
        match self.decoder {
            Some(d) => d.spec_expected_frame_id(),
            None => 0,
        }
    }

    /// The decoder actor of chunk `chunk_id`, which awaits its first frame.
    pub fn new(chunk_id: u32) -> (actor: Self)
        ensures
            actor.spec_chunk_id() == chunk_id,
            actor.spec_phase() is AwaitingFirstFrame,
            actor.spec_expected() == 0,
    {
        ChunkDecoder { chunk_id, phase: DecoderPhase::AwaitingFirstFrame, decoder: None }
    }

    /// The address under which the actor registers on the bus.
    pub fn address(&self) -> (addr: BusAddress)
        ensures
            addr == BusAddress::FrameDecoder(self.spec_chunk_id()),
    {
        BusAddress::FrameDecoder(self.chunk_id)
    }

    /// Where the actor stands.
    pub fn phase(&self) -> (phase: DecoderPhase)
        ensures
            phase == self.spec_phase(),
    {
        self.phase
    }

    /// The report that the actor sends to the receiver socket when it starts: it
    /// wants the chunk from its first symbol on.
    pub fn first_report(&self) -> (report: (u32, ReceivingChunkReport))
        ensures
            report == (self.spec_chunk_id(), ReceivingChunkReport::WantNext(0)),
    {
        (self.chunk_id, ReceivingChunkReport::WantNext(0))
    }

    /// Takes a data frame and says what to do next. The first frame makes the
    /// decoder, or fails to; every frame is fed to the decoder; what the decoder
    /// makes of it decides the step, as [`is_step_after`] says.
    pub fn on_frame(&mut self, frame: &ParsedDataFrame<INFO_LENGTH>) -> (step: DecoderStep)
        ensures
            final(self).spec_chunk_id() == old(self).spec_chunk_id(),
            final(self).spec_phase() == phase_after(step, old(self).spec_phase()),
            match old(self).spec_phase() {
                DecoderPhase::AwaitingFirstFrame => {
                    if FR::accepts(frame.transmission_info@) {
                        &&& final(self).spec_expected() == expected_after(0, frame.frame_offset)
                        &&& is_step_after(
                            FR::first_outcome(
                                frame.transmission_info@,
                                frame.frame_offset,
                                contents(frame.data),
                            ),
                            final(self).spec_expected(),
                            step,
                        )
                    } else {
                        step is Failed
                    }
                },
                DecoderPhase::Decoding => {
                    &&& final(self).spec_expected() == expected_after(
                        old(self).spec_expected(),
                        frame.frame_offset,
                    )
                    &&& is_step_after(
                        old(self).spec_outcome(frame.frame_offset, contents(frame.data)),
                        final(self).spec_expected(),
                        step,
                    )
                },
                _ => step is Closed && final(self).spec_expected() == old(self).spec_expected(),
            },
    {
        proof {
            use_type_invariant(&*self);
        }
        let chunk_id = self.chunk_id;
        match self.phase {
            DecoderPhase::AwaitingFirstFrame => {
                match FR::try_init(&frame.transmission_info) {
                    Some(decoder) => {
                        let mut decoder = decoder;
                        let outcome = decoder.update(
                            frame.frame_offset,
                            buffer_as_slice(&frame.data),
                        );
                        let expected = decoder.expected_frame_id();
                        let step = decide(outcome, expected);
                        let phase = match step {
                            DecoderStep::Completed { .. } => DecoderPhase::Completed,
                            _ => DecoderPhase::Decoding,
                        };
                        *self = ChunkDecoder { chunk_id, phase, decoder: Some(decoder) };
                        assert(step == step_after(outcome, self.spec_expected()));
                        step
                    },
                    None => {
                        *self = ChunkDecoder {
                            chunk_id,
                            phase: DecoderPhase::Failed,
                            decoder: None,
                        };
                        DecoderStep::Failed
                    },
                }
            },
            DecoderPhase::Decoding => {
                let mut taken = ChunkDecoder {
                    chunk_id,
                    phase: DecoderPhase::Failed,
                    decoder: None,
                };
                core::mem::swap(self, &mut taken);
                let mut decoder = taken.decoder.unwrap();
                let outcome = decoder.update(frame.frame_offset, buffer_as_slice(&frame.data));
                let expected = decoder.expected_frame_id();
                let step = decide(outcome, expected);
                let phase = match step {
                    DecoderStep::Completed { .. } => DecoderPhase::Completed,
                    _ => DecoderPhase::Decoding,
                };
                *self = ChunkDecoder { chunk_id, phase, decoder: Some(decoder) };
                assert(step == step_after(outcome, self.spec_expected()));
                step
            },
            _ => DecoderStep::Closed,
        }
    }
}

} // verus!
