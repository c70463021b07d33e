//! The fountain code as the engine sees it: a sender that turns a chunk into an
//! endless run of numbered symbols, and a receiver that takes symbols in any order
//! until it has the chunk.
use vstd::prelude::*;

use crate::constants::MTU;

pub mod raptorq_code;

verus! {

/// The bytes that a data packet takes besides its transmission info and its symbol:
/// the headers of packet and frame, and the checksum.
pub const DATA_PACKET_OVERHEAD: usize = 29;

/// Whether a symbol of `symbol_len` bytes fits a data packet beside a transmission
/// info of `info_len` bytes.
pub open spec fn symbol_fits(info_len: nat, symbol_len: nat) -> bool {
    DATA_PACKET_OVERHEAD + info_len + symbol_len <= MTU
}

/// The encoder of one chunk.
pub trait FrameSender<const TRANSMISSION_INFO_LENGTH: usize>: Sized {
    /// The id of the symbol that comes next.
    spec fn spec_next_id(&self) -> u32;

    /// Whether the encoder has a symbol left.
    spec fn can_send(&self) -> bool;

    /// What a decoder needs to know before it can take the first symbol.
    spec fn spec_transmission_info(&self) -> Seq<u8>;

    /// The bytes of the symbol with the id `id`. They stay what they are as symbols
    /// go out.
    spec fn spec_symbol(&self, id: u32) -> Seq<u8>;

    /// Whether the code can encode a chunk from symbol `next_id` on.
    spec fn accepts(chunk_data: Seq<u8>, next_id: u32) -> bool;

    /// The transmission info that the code gives a chunk.
    spec fn info_for(chunk_data: Seq<u8>) -> Seq<u8>;

    /// An encoder of `chunk_data` whose next symbol has the id `next_id`, where the
    /// code can encode the chunk from there on.
    fn init(chunk_data: &[u8], next_id: u32) -> (sender: Option<Self>)
        ensures
            sender is Some <==> Self::accepts(chunk_data@, next_id),
            sender matches Some(s) ==> s.spec_next_id() == next_id && s.can_send()
                && s.spec_transmission_info() == Self::info_for(chunk_data@),
    ;

    /// Whether the encoder has a symbol left.
    fn has_next(&self) -> (b: bool)
        ensures
            b == self.can_send(),
    ;

    /// The next symbol: its id, which is one more than that of the symbol before it,
    /// and its bytes, which fit a data packet.
    fn next_frame(&mut self) -> (frame: (u32, Vec<u8>))
        requires
            old(self).can_send(),
        ensures
            frame.0 == old(self).spec_next_id(),
            frame.1@ == old(self).spec_symbol(frame.0),
            forall|id: u32| #[trigger] final(self).spec_symbol(id) == old(self).spec_symbol(id),
            symbol_fits(TRANSMISSION_INFO_LENGTH as nat, frame.1@.len()),
            final(self).can_send() ==> final(self).spec_next_id() == frame.0 + 1,
            final(self).spec_transmission_info() == old(self).spec_transmission_info(),
    ;

    /// What a decoder needs to know before it can take the first symbol.
    fn get_transmission_info(&self) -> (info: [u8; TRANSMISSION_INFO_LENGTH])
        ensures
            info@ == self.spec_transmission_info(),
    ;
}

/// The id that a decoder expects after it has seen `frame_id`, where it expected
/// `expected` before: one more than the highest id seen, as far as ids go.
pub open spec fn expected_after(expected: u32, frame_id: u32) -> u32 {
    let next = if frame_id == u32::MAX {
        u32::MAX
    } else {
        (frame_id + 1) as u32
    };
    if expected < next {
        next
    } else {
        expected
    }
}

/// The decoder of one chunk.
pub trait FrameReceiver<const TRANSMISSION_INFO_LENGTH: usize>: Sized {
    /// One more than the highest symbol id that the decoder has seen.
    spec fn spec_expected_frame_id(&self) -> u32;

    /// Whether a decoder can be made from the transmission info.
    spec fn accepts(info: Seq<u8>) -> bool;

    /// What the decoder makes of the symbol `frame` with the id `frame_id`, as it
    /// stands: the chunk, where the symbol completes it, and nothing else.
    spec fn spec_outcome(&self, frame_id: u32, frame: Seq<u8>) -> Option<Seq<u8>>;

    /// What a decoder that was just made from `info` makes of the symbol `frame`
    /// with the id `frame_id`.
    spec fn first_outcome(info: Seq<u8>, frame_id: u32, frame: Seq<u8>) -> Option<Seq<u8>>;

    /// A decoder made from the transmission info of a chunk, where the info is
    /// well-formed.
    fn try_init(frame: &[u8; TRANSMISSION_INFO_LENGTH]) -> (receiver: Option<Self>)
        ensures
            receiver is Some <==> Self::accepts(frame@),
            receiver matches Some(r) ==> r.spec_expected_frame_id() == 0,
            receiver matches Some(r) ==> forall|frame_id: u32, symbol: Seq<u8>| #[trigger]
                r.spec_outcome(frame_id, symbol) == Self::first_outcome(frame@, frame_id, symbol),
    ;

    /// Takes one symbol. The call that completes the chunk returns the chunk.
    fn update(&mut self, frame_id: u32, frame: &[u8]) -> (chunk: Option<Vec<u8>>)
        ensures
            final(self).spec_expected_frame_id() == expected_after(
                old(self).spec_expected_frame_id(),
                frame_id,
            ),
            chunk is Some <==> old(self).spec_outcome(frame_id, frame@) is Some,
            chunk matches Some(c) ==> old(self).spec_outcome(frame_id, frame@) == Some(c@),
    ;

    /// One more than the highest symbol id that the decoder has seen.
    fn expected_frame_id(&self) -> (id: u32)
        ensures
            id == self.spec_expected_frame_id(),
    ;
}

} // verus!
