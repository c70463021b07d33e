//! Protocol-wide constants.
use vstd::prelude::*;

verus! {

/// Protocol version carried in every packet header.
pub const VERSION: u8 = 1;

/// Largest datagram the protocol ever puts on the wire.
pub const MTU: usize = 1490;

/// Alignment unit of chunk boundaries.
pub const DEFAULT_PAGE_SIZE: usize = 4096;

/// Number of pages in a full chunk.
pub const DEFAULT_PAGE_CHUNKS: usize = 8192;

/// Size of a full chunk: 32 MiB.
pub const CHUNK_SIZE: usize = 33554432;

/// Largest payload of one data frame.
pub const DEFAULT_FRAME_LEN: usize = 1440;

/// Length of an Ed25519 public key.
pub const PUB_KEY_LENGTH: usize = 32;

/// Length of an Ed25519 private key seed.
pub const PRI_KEY_LENGTH: usize = 32;

/// Length of the digest that gets signed.
pub const SIGNATURE_LENGTH: usize = 32;

/// Length of the decoder configuration blob carried in every data frame.
pub const TRANSMISSION_INFO_LENGTH: usize = 12;

} // verus!
