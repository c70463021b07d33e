//! The transport engine: what the actors of a transfer decide.
//!
//! Every actor here is a state machine that is handed what happened, a datagram, a
//! message, a tick of the clock, and says what to do next. Sockets, clocks and the
//! scheduling of tasks are the caller's.
use vstd::prelude::*;

use crate::protocol::wire::frames::{DataFrame, ParsedDataFrame};
use crate::util::Compare;

pub mod bus;
pub mod decoding;
pub mod encoding;
pub mod receiving;
pub mod sending;

pub use bus::Bus;

verus! {

/// The address of a peer on the network.
#[derive(Debug, Clone, Copy, PartialEq, Eq, Hash, Structural)]
pub enum PeerAddr {
    /// An IPv4 address and a port.
    V4(u32, u16),
    /// An IPv6 address, a port, the flow information and the scope.
    V6(u128, u16, u32, u32),
}

/// The address of an actor on the bus.
#[derive(Debug, Clone, Copy, PartialEq, Eq, Hash, Structural)]
pub enum BusAddress {
    SenderSocket,
    ReceiverSocket,
    /// The encoder of a chunk for one peer.
    FrameEncoder(u32, PeerAddr),
    /// The decoder of a chunk.
    FrameDecoder(u32),
}

/// How far the receiver of a chunk has come.
#[derive(Debug, Clone, Copy, PartialEq, Eq, PartialOrd, Ord, Structural)]
pub enum ReceivingChunkReport {
    /// The chunk is not yet decoded; symbols from this offset on are wanted.
    WantNext(u32),
    /// The chunk is decoded; this is where the decoder stood.
    Finished(u32),
}

impl ReceivingChunkReport {
    /// The place of a report in the order of reports: every `Finished` comes after
    /// every `WantNext`, and among reports of one kind the offset decides.
    pub open spec fn rank(self) -> int {
        match self {
            ReceivingChunkReport::WantNext(n) => n as int,
            ReceivingChunkReport::Finished(n) => 0x1_0000_0000 + n as int,
        }
    }

    /// The later of two reports.
    pub open spec fn merge(self, other: ReceivingChunkReport) -> ReceivingChunkReport {
        if self.rank() < other.rank() {
            other
        } else {
            self
        }
    }

    /// Whether the report says that the chunk is decoded.
    pub fn is_finished(&self) -> (b: bool)
        ensures
            b == (*self is Finished),
    {
        match self {
            ReceivingChunkReport::Finished(_) => true,
            ReceivingChunkReport::WantNext(_) => false,
        }
    }

    /// Whether this report comes before `other` in the order of reports.
    pub fn precedes(&self, other: &ReceivingChunkReport) -> (b: bool)
        ensures
            b == (self.rank() < other.rank()),
    {
        match (self, other) {
            (ReceivingChunkReport::Finished(a), ReceivingChunkReport::Finished(b)) => *a < *b,
            (ReceivingChunkReport::Finished(_), ReceivingChunkReport::WantNext(_)) => false,
            (ReceivingChunkReport::WantNext(_), ReceivingChunkReport::Finished(_)) => true,
            (ReceivingChunkReport::WantNext(a), ReceivingChunkReport::WantNext(b)) => *a < *b,
        }
    }
}

/// The order of reports is total: two reports of the same rank are the same report.
pub proof fn lemma_rank_decides(a: ReceivingChunkReport, b: ReceivingChunkReport)
    ensures
        a.rank() == b.rank() <==> a == b,
        a.merge(b).rank() >= a.rank(),
        a.merge(b).rank() >= b.rank(),
        a.merge(b) == a || a.merge(b) == b,
        a.merge(b) == b.merge(a),
{
}

impl Compare for ReceivingChunkReport {
    open spec fn comes_before(&self, other: &ReceivingChunkReport) -> bool {
        self.rank() < other.rank()
    }

    fn cmax(&mut self, other: ReceivingChunkReport) {
        if self.precedes(&other) {
            *self = other;
        }
    }

    fn cmin(&mut self, other: ReceivingChunkReport) {
        if other.precedes(self) {
            *self = other;
        }
    }
}

/// What the sender of a chunk is told to do.
#[derive(Debug, Clone, Copy, PartialEq, Eq, Structural)]
pub struct SendingOrder {
    pub chunk_id: u32,
    /// The time between two symbols, in nanoseconds, where the order sets it.
    pub sending_interval: Option<u64>,
    /// When the order came, in nanoseconds on the engine's clock.
    pub time_stamp: u64,
    /// The first symbol that the receiver still wants.
    pub offset_next: u32,
    /// The offset up to which the receiver takes symbols.
    pub offset_no_more_than: u64,
    /// The receiver has the chunk: stop.
    pub close_now: bool,
}

impl SendingOrder {
    /// The order names no interval of zero length, and its ceiling is one that a
    /// ticket can ask for: an offset plus a window.
    pub open spec fn well_formed(&self) -> bool {
        &&& self.sending_interval matches Some(i) ==> i > 0
        &&& self.offset_no_more_than <= 2 * u32::MAX
    }

    /// Tells whether the order is well-formed.
    pub fn is_well_formed(&self) -> (ok: bool)
        ensures
            ok == self.well_formed(),
    {
        let interval_ok = match self.sending_interval {
            Some(i) => i > 0,
            None => true,
        };
        interval_ok && self.offset_no_more_than <= 2 * (u32::MAX as u64)
    }
}

/// What travels on the bus.
#[derive(Debug)]
pub enum BusMessage<const INFO_LENGTH: usize> {
    SendingOrder(SendingOrder),
    ReceivingChunkReport((u32, ReceivingChunkReport)),
    SendingData((PeerAddr, DataFrame<INFO_LENGTH>)),
    ReceivingData(ParsedDataFrame<INFO_LENGTH>),
}

impl<const INFO_LENGTH: usize> BusMessage<INFO_LENGTH> {
    /// The order that the message is, if it is one.
    pub fn into_sending_order(self) -> (r: Option<SendingOrder>)
        ensures
            r == (match self {
                BusMessage::SendingOrder(order) => Some(order),
                _ => None,
            }),
    {
        match self {
            BusMessage::SendingOrder(order) => Some(order),
            _ => None,
        }
    }

    /// The report that the message is, if it is one.
    pub fn into_report(self) -> (r: Option<(u32, ReceivingChunkReport)>)
        ensures
            r == (match self {
                BusMessage::ReceivingChunkReport(report) => Some(report),
                _ => None,
            }),
    {
        match self {
            BusMessage::ReceivingChunkReport(report) => Some(report),
            _ => None,
        }
    }

    /// The data frame to send that the message is, if it is one.
    pub fn into_sending_data(self) -> (r: Option<(PeerAddr, DataFrame<INFO_LENGTH>)>)
        ensures
            r == (match self {
                BusMessage::SendingData(data) => Some(data),
                _ => None,
            }),
    {
        match self {
            BusMessage::SendingData(data) => Some(data),
            _ => None,
        }
    }

    /// The data frame received that the message is, if it is one.
    pub fn into_receiving_data(self) -> (r: Option<ParsedDataFrame<INFO_LENGTH>>)
        ensures
            r == (match self {
                BusMessage::ReceivingData(data) => Some(data),
                _ => None,
            }),
    {
        match self {
            BusMessage::ReceivingData(data) => Some(data),
            _ => None,
        }
    }
}

} // verus!
