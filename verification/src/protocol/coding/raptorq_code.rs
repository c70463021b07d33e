//! The RaptorQ code of the `raptorq` crate as a fountain code of the engine.
//!
//! Symbols are numbered across the source blocks of a chunk: symbol `id` is symbol
//! `id / blocks` of block `id % blocks`. Within a block the source symbols come
//! first and the repair symbols after them. The sender cuts a chunk into symbols of
//! the frame length and into blocks of no more than [`MAX_BLOCK_SYMBOLS`] symbols;
//! the receiver takes any chunk whose transmission info is well-formed.
use raptorq::{Decoder, Encoder, EncodingPacket, ObjectTransmissionInformation};
use vstd::arithmetic::div_mod::{lemma_div_nonincreasing, lemma_fundamental_div_mod};
use vstd::prelude::*;

use crate::constants::{CHUNK_SIZE, DEFAULT_FRAME_LEN, TRANSMISSION_INFO_LENGTH};
use crate::protocol::coding::{expected_after, FrameReceiver, FrameSender};

verus! {

/// The number of symbol ids that a block has: an id takes 24 bits.
pub const SYMBOL_IDS: u32 = 0x100_0000;

/// The most source symbols that a block of a chunk has, as the sender cuts it.
/// Blocks this small are quick to encode and to decode, and a chunk of a plan still
/// has fewer than 256 of them.
pub const MAX_BLOCK_SYMBOLS: usize = 96;

/// The most source symbols that RaptorQ allows a block.
pub const MAX_SYMBOLS_PER_BLOCK: u64 = 56403;

/// The alignment of the symbols that the sender makes.
pub const SYMBOL_ALIGNMENT: u8 = 8;

/// `raptorq::Encoder`, which holds the source blocks of a chunk and makes their
/// symbols.
#[verifier::external_type_specification]
#[verifier::external_body]
pub struct ExEncoder(Encoder);

/// `raptorq::Decoder`, which gathers symbols of a chunk until it can decode it.
#[verifier::external_type_specification]
#[verifier::external_body]
pub struct ExDecoder(Decoder);

/// What an encoder holds: the serialized packet of symbol `symbol` of block
/// `block`.
pub uninterp spec fn packet_of(encoder: Encoder, block: int, symbol: int) -> Seq<u8>;

/// The number of source symbols of each block of an encoder.
pub uninterp spec fn block_symbols(encoder: Encoder) -> Seq<nat>;

/// The transmission info that a decoder was made from, as RaptorQ serializes it:
/// with a reserved byte of zero.
pub uninterp spec fn decoder_info(decoder: Decoder) -> Seq<u8>;

/// What `raptorq::Decoder::decode` returns from a decoder for a serialized packet:
/// the chunk, once this packet and those that the decoder was given before
/// suffice.
pub uninterp spec fn decode_of(decoder: Decoder, packet: Seq<u8>) -> Option<Seq<u8>>;

/// What `raptorq::Decoder::decode` returns from a decoder made from `info` for the
/// last of `packets`, the others having been given to it before: the chunk, once
/// the packets suffice.
pub uninterp spec fn raptorq_decoded(info: Seq<u8>, packets: Seq<Seq<u8>>) -> Option<Seq<u8>>;

/// `a / b`, rounded up.
pub open spec fn ceil_div(a: int, b: int) -> int
    recommends
        b > 0,
{
    (a + b - 1) / b
}

/// The number of symbols that a chunk of `length` bytes is cut into.
pub open spec fn chunk_symbols(length: int) -> int {
    ceil_div(length, DEFAULT_FRAME_LEN as int)
}

/// The number of source blocks that the sender cuts a chunk of `length` bytes into.
pub open spec fn chunk_blocks(length: int) -> int {
    ceil_div(chunk_symbols(length), MAX_BLOCK_SYMBOLS as int)
}

/// A transmission info as RFC 6330 lays it out: the length of the chunk in five
/// bytes, a reserved byte, the symbol size in two, the number of source blocks, the
/// number of sub-blocks in two, and the symbol alignment.
pub open spec fn info_layout(
    length: int,
    symbol_size: int,
    blocks: int,
    sub_blocks: int,
    alignment: int,
) -> Seq<u8> {
    seq![
        (length / 0x1_0000_0000 % 0x100) as u8,
        (length / 0x100_0000 % 0x100) as u8,
        (length / 0x1_0000 % 0x100) as u8,
        (length / 0x100 % 0x100) as u8,
        (length % 0x100) as u8,
        0u8,
        (symbol_size / 0x100) as u8,
        (symbol_size % 0x100) as u8,
        blocks as u8,
        (sub_blocks / 0x100) as u8,
        (sub_blocks % 0x100) as u8,
        alignment as u8,
    ]
}

/// The transmission info that the sender gives a chunk of `length` bytes: symbols
/// of the frame length, blocks of no more than [`MAX_BLOCK_SYMBOLS`] symbols, one
/// sub-block.
pub open spec fn chunk_info(length: int) -> Seq<u8> {
    info_layout(
        length,
        DEFAULT_FRAME_LEN as int,
        chunk_blocks(length),
        1,
        SYMBOL_ALIGNMENT as int,
    )
}

/// The length of the chunk that a transmission info is for: its first five bytes.
pub open spec fn info_length(info: Seq<u8>) -> int
    recommends
        info.len() == 12,
{
    info[0] as int * 0x1_0000_0000 + info[1] as int * 0x100_0000 + info[2] as int * 0x1_0000
        + info[3] as int * 0x100 + info[4] as int
}

/// The length of the symbols that a transmission info tells of: bytes 6 and 7.
pub open spec fn info_symbol_size(info: Seq<u8>) -> int
    recommends
        info.len() == 12,
{
    info[6] as int * 0x100 + info[7] as int
}

/// The number of source blocks that a transmission info tells of: byte 8.
pub open spec fn info_blocks(info: Seq<u8>) -> int
    recommends
        info.len() == 12,
{
    info[8] as int
}

/// The number of sub-blocks that a transmission info tells of: bytes 9 and 10.
pub open spec fn info_sub_blocks(info: Seq<u8>) -> int
    recommends
        info.len() == 12,
{
    info[9] as int * 0x100 + info[10] as int
}

/// The symbol alignment that a transmission info tells of: byte 11.
pub open spec fn info_alignment(info: Seq<u8>) -> int
    recommends
        info.len() == 12,
{
    info[11] as int
}

/// A transmission info as RaptorQ reads it: its fields laid out again, the reserved
/// byte zero.
pub open spec fn info_fields(info: Seq<u8>) -> Seq<u8>
    recommends
        info.len() == 12,
{
    info_layout(
        info_length(info),
        info_symbol_size(info),
        info_blocks(info),
        info_sub_blocks(info),
        info_alignment(info),
    )
}

/// The number of symbols that the chunk of a transmission info is cut into.
pub open spec fn info_symbols(info: Seq<u8>) -> int
    recommends
        info.len() == 12,
{
    ceil_div(info_length(info), info_symbol_size(info))
}

/// The number of source symbols of block `block` of the chunk of a transmission
/// info. The symbols are dealt to the blocks as evenly as can be, and the blocks
/// that get one more come first.
pub open spec fn block_size(info: Seq<u8>, block: int) -> int
    recommends
        info.len() == 12,
{
    let symbols = info_symbols(info);
    let blocks = info_blocks(info);
    if block < symbols % blocks {
        symbols / blocks + 1
    } else {
        symbols / blocks
    }
}

/// The number of source symbols of the chunk of a transmission info that lie in the
/// blocks before block `block`.
pub open spec fn block_start(info: Seq<u8>, block: int) -> int
    recommends
        info.len() == 12,
{
    let symbols = info_symbols(info);
    let blocks = info_blocks(info);
    if block < symbols % blocks {
        block * (symbols / blocks) + block
    } else {
        block * (symbols / blocks) + symbols % blocks
    }
}

/// The four bytes at the head of a serialized packet: the block, and the id of the
/// symbol in three bytes.
pub open spec fn packet_head(block: int, symbol: int) -> Seq<u8> {
    seq![
        block as u8,
        (symbol / 0x1_0000) as u8,
        (symbol / 0x100 % 0x100) as u8,
        (symbol % 0x100) as u8,
    ]
}

/// Symbol `n` of a chunk that is cut into symbols of `size` bytes, with zeros where
/// the chunk has ended.
pub open spec fn source_symbol(chunk_data: Seq<u8>, size: int, n: int) -> Seq<u8> {
    Seq::new(
        size as nat,
        |j: int|
            if n * size + j < chunk_data.len() {
                chunk_data[n * size + j]
            } else {
                0u8
            },
    )
}

/// The serialized packet of source symbol `symbol` of block `block` of a chunk whose
/// transmission info is `info` and tells of one sub-block: its head, and the
/// symbol's bytes of the chunk.
pub open spec fn source_packet(chunk_data: Seq<u8>, info: Seq<u8>, block: int, symbol: int) -> Seq<
    u8,
>
    recommends
        info.len() == 12,
{
    packet_head(block, symbol) + source_symbol(
        chunk_data,
        info_symbol_size(info),
        block_start(info, block) + symbol,
    )
}

/// The id of the symbol that a serialized packet holds: bytes 1 to 3.
pub open spec fn packet_symbol(packet: Seq<u8>) -> int
    recommends
        packet.len() >= 4,
{
    packet[1] as int * 0x1_0000 + packet[2] as int * 0x100 + packet[3] as int
}

/// Whether symbol `symbol` of a block of `symbols` source symbols is a repair symbol
/// for which RaptorQ's tuple generator adds past 32 bits. There is one such symbol
/// for the blocks of 978 to 989 source symbols and one for those of 2153 to 2195,
/// and none for a block of another size. A build that checks its arithmetic stops
/// where it meets one.
pub open spec fn tuple_overflows(symbols: int, symbol: int) -> bool {
    ||| 978 <= symbols <= 989 && symbol == 3157240 + symbols
    ||| 2153 <= symbols <= 2195 && symbol == 8190682 + symbols
}

/// Whether a decoder made from `info` can take a serialized packet: the packet has
/// the length of the chunk's packets, its first byte names one of the chunk's
/// blocks, and its symbol is none that the tuple generator overflows on.
pub open spec fn packet_fits(info: Seq<u8>, packet: Seq<u8>) -> bool
    recommends
        info.len() == 12,
{
    &&& packet.len() == 4 + info_symbol_size(info)
    &&& packet[0] < info_blocks(info)
    &&& !tuple_overflows(block_size(info, packet[0] as int), packet_symbol(packet))
}

/// A transmission info is well-formed where a decoder can be made from it: symbols
/// and alignment are not of zero length, a symbol is a whole number of alignments,
/// there is a block and a sub-block, and no block has more symbols than RaptorQ
/// allows.
pub open spec fn info_in_order(info: Seq<u8>) -> bool {
    &&& info.len() == 12
    &&& info_symbol_size(info) > 0
    &&& info_alignment(info) > 0
    &&& info_symbol_size(info) % info_alignment(info) == 0
    &&& info_blocks(info) >= 1
    &&& info_sub_blocks(info) >= 1
    &&& ceil_div(ceil_div(info_length(info), info_symbol_size(info)), info_blocks(info))
        <= MAX_SYMBOLS_PER_BLOCK
}

/// Five bytes are the digits of the number that they spell.
proof fn lemma_length_bytes(b0: int, b1: int, b2: int, b3: int, b4: int)
    requires
        0 <= b0 < 0x100,
        0 <= b1 < 0x100,
        0 <= b2 < 0x100,
        0 <= b3 < 0x100,
        0 <= b4 < 0x100,
    ensures
        ({
            let n = b0 * 0x1_0000_0000 + b1 * 0x100_0000 + b2 * 0x1_0000 + b3 * 0x100 + b4;
            &&& n / 0x1_0000_0000 % 0x100 == b0
            &&& n / 0x100_0000 % 0x100 == b1
            &&& n / 0x1_0000 % 0x100 == b2
            &&& n / 0x100 % 0x100 == b3
            &&& n % 0x100 == b4
        }),
{
    let n = b0 * 0x1_0000_0000 + b1 * 0x100_0000 + b2 * 0x1_0000 + b3 * 0x100 + b4;
    let n3 = b0 * 0x100_0000 + b1 * 0x1_0000 + b2 * 0x100 + b3;
    let n2 = b0 * 0x1_0000 + b1 * 0x100 + b2;
    let n1 = b0 * 0x100 + b1;
    assert(n == n3 * 0x100 + b4);
    assert(n / 0x100 == n3);
    assert(n == n2 * 0x1_0000 + (b3 * 0x100 + b4));
    assert(n / 0x1_0000 == n2);
    assert(n == n1 * 0x100_0000 + (b2 * 0x1_0000 + b3 * 0x100 + b4));
    assert(n / 0x100_0000 == n1);
    assert(n == b0 * 0x1_0000_0000 + (b1 * 0x100_0000 + b2 * 0x1_0000 + b3 * 0x100 + b4));
    assert(n / 0x1_0000_0000 == b0);
    assert(n3 == n2 * 0x100 + b3);
    assert(n2 == n1 * 0x100 + b2);
    assert(n1 == b0 * 0x100 + b1);
}

/// Laying the fields of a transmission info out again changes none of them.
pub proof fn lemma_info_fields(info: Seq<u8>)
    requires
        info.len() == 12,
    ensures
        info_fields(info).len() == 12,
        forall|i: int| 0 <= i < 12 && i != 5 ==> info_fields(info)[i] == info[i],
        info_fields(info)[5] == 0,
        info_length(info_fields(info)) == info_length(info),
        info_symbol_size(info_fields(info)) == info_symbol_size(info),
        info_blocks(info_fields(info)) == info_blocks(info),
        info_sub_blocks(info_fields(info)) == info_sub_blocks(info),
        info_alignment(info_fields(info)) == info_alignment(info),
        info_in_order(info_fields(info)) == info_in_order(info),
{
    let fields = info_fields(info);
    lemma_length_bytes(
        info[0] as int,
        info[1] as int,
        info[2] as int,
        info[3] as int,
        info[4] as int,
    );
    assert(fields[0] == info[0]);
    assert(fields[1] == info[1]);
    assert(fields[2] == info[2]);
    assert(fields[3] == info[3]);
    assert(fields[4] == info[4]);
    assert(fields[6] == info[6]);
    assert(fields[7] == info[7]);
    assert(fields[8] == info[8]);
    assert(fields[9] == info[9]);
    assert(fields[10] == info[10]);
    assert(fields[11] == info[11]);
}

/// The transmission info that the sender gives a chunk of a plan is well-formed: it
/// names the chunk's length, symbols of the frame length and at least one source
/// block, and no more than fit a byte.
pub proof fn lemma_chunk_info(length: int)
    requires
        1 <= length <= CHUNK_SIZE,
    ensures
        chunk_info(length).len() == 12,
        info_length(chunk_info(length)) == length,
        info_symbol_size(chunk_info(length)) == DEFAULT_FRAME_LEN,
        info_blocks(chunk_info(length)) == chunk_blocks(length),
        1 <= chunk_blocks(length) <= 255,
        ceil_div(chunk_symbols(length), chunk_blocks(length)) <= MAX_SYMBOLS_PER_BLOCK,
        info_in_order(chunk_info(length)),
{
    let info = chunk_info(length);
    let symbols = chunk_symbols(length);
    let blocks = chunk_blocks(length);
    assert(1 <= symbols <= 23302);
    assert(1 <= blocks <= 243);
    assert(ceil_div(symbols, blocks) <= symbols) by (nonlinear_arith)
        requires
            1 <= symbols,
            1 <= blocks,
    ;
    assert(length / 0x1_0000_0000 == 0);
    assert(length / 0x100 == (length / 0x1_0000) * 0x100 + length / 0x100 % 0x100);
    assert(length / 0x1_0000 == (length / 0x100_0000) * 0x100 + length / 0x1_0000 % 0x100);
    assert(info[0] == 0);
    assert(info[1] == (length / 0x100_0000) as u8);
    assert(info[2] == (length / 0x1_0000 % 0x100) as u8);
    assert(info[3] == (length / 0x100 % 0x100) as u8);
    assert(info[4] == (length % 0x100) as u8);
    assert(info[6] == 5);
    assert(info[7] == 160);
    assert(info[8] == blocks as u8);
    assert(info[9] == 0);
    assert(info[10] == 1);
    assert(info[11] == 8);
}

/// No block of a chunk has more symbols than the sender allows a block.
pub proof fn lemma_block_size(length: int, block: int)
    requires
        1 <= length <= CHUNK_SIZE,
        0 <= block < chunk_blocks(length),
    ensures
        1 <= block_size(chunk_info(length), block) <= MAX_BLOCK_SYMBOLS,
{
    lemma_chunk_info(length);
    let symbols = chunk_symbols(length);
    let blocks = chunk_blocks(length);
    assert(info_symbols(chunk_info(length)) == symbols);
    assert(symbols == blocks * (symbols / blocks) + symbols % blocks && 0 <= symbols % blocks
        < blocks) by {
        lemma_fundamental_div_mod(symbols, blocks);
    }
    assert(symbols <= MAX_BLOCK_SYMBOLS * blocks);
    assert(symbols > MAX_BLOCK_SYMBOLS * (blocks - 1));
    let per = symbols / blocks;
    let more = symbols % blocks;
    assert(per <= MAX_BLOCK_SYMBOLS && (more > 0 ==> per < MAX_BLOCK_SYMBOLS) && per >= 1)
        by (nonlinear_arith)
        requires
            symbols == blocks * per + more,
            0 <= more < blocks,
            symbols <= 96 * blocks,
            symbols > 96 * (blocks - 1),
            blocks >= 1,
            symbols >= 1,
            MAX_BLOCK_SYMBOLS == 96,
    ;
}

/// `ObjectTransmissionInformation::new` and `serialize`: the bytes of a
/// transmission info. The outside constructor panics on a chunk longer than
/// RFC 6330 allows, on symbols that are no whole number of alignments and on
/// blocks of more symbols than RaptorQ allows, which the precondition excludes.
#[verifier::external_body]
fn serialize_info(length: u64, symbol_size: u16, blocks: u8, sub_blocks: u16, alignment: u8) -> (info:
    [u8; 12])
    requires
        length <= 942574504275,
        symbol_size > 0,
        alignment > 0,
        symbol_size as int % alignment as int == 0,
        blocks >= 1,
        ceil_div(ceil_div(length as int, symbol_size as int), blocks as int)
            <= MAX_SYMBOLS_PER_BLOCK,
    ensures
        info@ == info_layout(
            length as int,
            symbol_size as int,
            blocks as int,
            sub_blocks as int,
            alignment as int,
        ),
{
    ObjectTransmissionInformation::new(length, symbol_size, blocks, sub_blocks, alignment).serialize()
}

/// The transmission info that the sender gives a chunk of `length` bytes.
pub fn make_info(length: usize) -> (info: [u8; 12])
    requires
        1 <= length <= CHUNK_SIZE,
    ensures
        info@ == chunk_info(length as int),
{
    let symbols: usize = (length + DEFAULT_FRAME_LEN - 1) / DEFAULT_FRAME_LEN;
    let blocks: usize = (symbols + MAX_BLOCK_SYMBOLS - 1) / MAX_BLOCK_SYMBOLS;
    proof {
        lemma_chunk_info(length as int);
    }
    serialize_info(length as u64, DEFAULT_FRAME_LEN as u16, blocks as u8, 1, SYMBOL_ALIGNMENT)
}

/// `Encoder::new` with the transmission info of the chunk, which
/// `ObjectTransmissionInformation::deserialize` reads. The encoder has as many
/// blocks as the info tells, the chunk's symbols dealt to them as evenly as can be
/// and in the chunk's order. Each of its packets is the four bytes that name block
/// and symbol and a symbol of the size that the info tells, and the packet of a
/// source symbol holds the symbol's bytes of the chunk, which ends in zeros where
/// its last symbol is not full.
#[verifier::external_body]
fn make_encoder(chunk_data: &[u8], info: &[u8; 12]) -> (encoder: Encoder)
    requires
        1 <= chunk_data@.len() <= CHUNK_SIZE,
        info@ == chunk_info(chunk_data@.len() as int),
    ensures
        block_symbols(encoder).len() == info_blocks(info@),
        forall|block: int|
            0 <= block < info_blocks(info@) ==> #[trigger] block_symbols(encoder)[block]
                == block_size(info@, block),
        forall|block: int, symbol: int|
            0 <= block < info_blocks(info@) && 0 <= symbol < block_size(info@, block)
                ==> #[trigger] packet_of(encoder, block, symbol) == source_packet(
                chunk_data@,
                info@,
                block,
                symbol,
            ),
        forall|block: int, symbol: int|
            0 <= block < info_blocks(info@) && 0 <= symbol < SYMBOL_IDS ==> (#[trigger] packet_of(
                encoder,
                block,
                symbol,
            )).len() == 4 + info_symbol_size(info@),
{
    Encoder::new(chunk_data, ObjectTransmissionInformation::deserialize(info))
}

/// `SourceBlockEncoder::source_packets` of one block, each packet serialized: the
/// packets of the source symbols of the block, in order.
#[verifier::external_body]
fn source_packets(encoder: &Encoder, block: usize) -> (packets: Vec<Vec<u8>>)
    requires
        block < block_symbols(*encoder).len(),
    ensures
        packets@.len() == block_symbols(*encoder)[block as int],
        forall|i: int|
            0 <= i < packets@.len() ==> (#[trigger] packets@[i])@ == packet_of(
                *encoder,
                block as int,
                i,
            ),
{
    encoder.get_block_encoders()[block].source_packets().iter().map(|p| p.serialize()).collect()
}

/// `SourceBlockEncoder::repair_packets` for one repair symbol of one block,
/// serialized: the packet of the symbol that comes `repair_id` after the source
/// symbols. The outside function panics where the symbol's id does not fit 24 bits
/// and, where arithmetic is checked, on a symbol that the tuple generator overflows
/// on.
#[verifier::external_body]
fn repair_packet(encoder: &Encoder, block: usize, repair_id: u32) -> (packet: Vec<u8>)
    requires
        block < block_symbols(*encoder).len(),
        block_symbols(*encoder)[block as int] + repair_id < SYMBOL_IDS,
        !tuple_overflows(
            block_symbols(*encoder)[block as int] as int,
            block_symbols(*encoder)[block as int] + repair_id,
        ),
    ensures
        packet@ == packet_of(
            *encoder,
            block as int,
            block_symbols(*encoder)[block as int] + repair_id,
        ),
{
    encoder.get_block_encoders()[block].repair_packets(repair_id, 1).remove(0).serialize()
}

/// `Decoder::new` from a serialized transmission info that is well-formed, which
/// `ObjectTransmissionInformation::deserialize` reads but for its reserved byte.
/// The decoder has been given no packet: what it returns for one is what a decoder
/// made from the info returns for the first.
#[verifier::external_body]
fn make_decoder(info: &[u8; 12]) -> (decoder: Decoder)
    requires
        info_in_order(info@),
    ensures
        decoder_info(decoder) == info_fields(info@),
        forall|packet: Seq<u8>|
            packet_fits(info@, packet) ==> #[trigger] decode_of(decoder, packet)
                == raptorq_decoded(info_fields(info@), seq![packet]),
{
    Decoder::new(ObjectTransmissionInformation::deserialize(info))
}

/// `Decoder::decode` of a serialized packet. The outside function panics on a
/// packet of a block that the chunk does not have or with a symbol of another
/// length than the chunk's, and, where arithmetic is checked, on a symbol that the
/// tuple generator overflows on, all of which the precondition excludes. Of the
/// decoder after the call only its transmission info is stated: it keeps a packet
/// or not as its block and the symbols that it holds decide.
#[verifier::external_body]
fn decode_packet(decoder: &mut Decoder, frame: &[u8]) -> (chunk: Option<Vec<u8>>)
    requires
        info_in_order(decoder_info(*old(decoder))),
        packet_fits(decoder_info(*old(decoder)), frame@),
    ensures
        decoder_info(*final(decoder)) == decoder_info(*old(decoder)),
        chunk is Some <==> decode_of(*old(decoder), frame@) is Some,
        chunk matches Some(c) ==> decode_of(*old(decoder), frame@) == Some(c@),
{
    decoder.decode(EncodingPacket::deserialize(frame))
}

/// The RaptorQ encoder of one chunk.
pub struct RaptorqSender {
    encoder: Encoder,
    info: [u8; 12],
    /// The serialized source packets of each block.
    sources: Vec<Vec<Vec<u8>>>,
    next_id: u32,
}

impl RaptorqSender {
    #[verifier::type_invariant]
    spec fn well_formed(&self) -> bool {
        &&& 1 <= self.sources@.len() <= 255
        &&& self.sources@.len() == block_symbols(self.encoder).len()
        &&& forall|b: int|
            0 <= b < self.sources@.len() ==> (#[trigger] self.sources@[b])@.len() == block_symbols(
                self.encoder,
            )[b]
        &&& forall|b: int|
            0 <= b < self.sources@.len() ==> (#[trigger] self.sources@[b])@.len()
                <= MAX_BLOCK_SYMBOLS
        &&& forall|b: int, i: int|
            0 <= b < self.sources@.len() && 0 <= i < self.sources@[b]@.len() ==> (
            #[trigger] self.sources@[b]@[i])@ == packet_of(self.encoder, b, i)
        &&& forall|b: int, i: int|
            0 <= b < self.sources@.len() && 0 <= i < SYMBOL_IDS ==> (#[trigger] packet_of(
                self.encoder,
                b,
                i,
            )).len() == PACKET_LEN
        &&& (self.next_id as int) <= SYMBOL_IDS * self.sources@.len()
    }

    /// The number of source blocks of the chunk.
    pub closed spec fn spec_blocks(&self) -> nat {
        self.sources@.len()
    }
}

/// The length of a serialized packet of the sender: four bytes that name block and
/// symbol, and a symbol of the frame length.
pub const PACKET_LEN: usize = 1444;

/// Whether RaptorQ can encode a chunk of `length` bytes from symbol `next_id` on:
/// the chunk is not empty and no longer than a chunk of a plan, and the symbol is
/// one of the 2^24 of its block.
pub open spec fn can_encode(length: nat, next_id: u32) -> bool {
    &&& 1 <= length <= CHUNK_SIZE
    &&& (next_id as int) / chunk_blocks(length as int) < SYMBOL_IDS
}

/// Whether symbol `id` of a chunk of `length` bytes is a source symbol: one that
/// holds bytes of the chunk as they are.
pub open spec fn is_source_id(length: int, id: u32) -> bool {
    (id as int) / chunk_blocks(length) < block_size(
        chunk_info(length),
        (id as int) % chunk_blocks(length),
    )
}

/// The frame of source symbol `id` of a chunk, as the sender makes it.
pub open spec fn source_frame(chunk_data: Seq<u8>, id: u32) -> Seq<u8> {
    source_packet(
        chunk_data,
        chunk_info(chunk_data.len() as int),
        (id as int) % chunk_blocks(chunk_data.len() as int),
        (id as int) / chunk_blocks(chunk_data.len() as int),
    )
}

impl FrameSender<TRANSMISSION_INFO_LENGTH> for RaptorqSender {
    closed spec fn spec_next_id(&self) -> u32 {
        self.next_id
    }

    closed spec fn can_send(&self) -> bool {
        (self.next_id as int) / (self.sources@.len() as int) < SYMBOL_IDS
    }

    closed spec fn spec_transmission_info(&self) -> Seq<u8> {
        self.info@
    }

    closed spec fn spec_symbol(&self, id: u32) -> Seq<u8> {
        packet_of(
            self.encoder,
            (id as int) % (self.sources@.len() as int),
            (id as int) / (self.sources@.len() as int),
        )
    }

    open spec fn accepts(chunk_data: Seq<u8>, next_id: u32) -> bool {
        can_encode(chunk_data.len(), next_id)
    }

    open spec fn info_for(chunk_data: Seq<u8>) -> Seq<u8> {
        chunk_info(chunk_data.len() as int)
    }

    fn init(chunk_data: &[u8], next_id: u32) -> (sender: Option<Self>)
        ensures
            sender matches Some(s) ==> forall|id: u32|
                is_source_id(chunk_data@.len() as int, id) ==> #[trigger] s.spec_symbol(id)
                    == source_frame(chunk_data@, id),
    {
        let length: usize = chunk_data.len();
        if length == 0 || length > CHUNK_SIZE {
            return None;
        }
        let info = make_info(length);
        proof {
            lemma_chunk_info(length as int);
        }
        let blocks: usize = info[8] as usize;
        if next_id / (blocks as u32) >= SYMBOL_IDS {
            return None;
        }
        let encoder = make_encoder(chunk_data, &info);
        proof {
            assert forall|b: int| 0 <= b < blocks implies #[trigger] block_symbols(encoder)[b]
                <= MAX_BLOCK_SYMBOLS by {
                lemma_block_size(length as int, b);
            }
        }
        let mut sources: Vec<Vec<Vec<u8>>> = Vec::with_capacity(blocks);
        let mut block: usize = 0;
        while block < blocks
            invariant
                0 <= block <= blocks,
                blocks == block_symbols(encoder).len(),
                sources@.len() == block,
                forall|b: int|
                    0 <= b < blocks ==> #[trigger] block_symbols(encoder)[b] <= MAX_BLOCK_SYMBOLS,
                forall|b: int|
                    0 <= b < block ==> (#[trigger] sources@[b])@.len() == block_symbols(encoder)[b],
                forall|b: int, i: int|
                    0 <= b < block && 0 <= i < sources@[b]@.len() ==> (
                    #[trigger] sources@[b]@[i])@ == packet_of(encoder, b, i),
            decreases blocks - block,
        {
            sources.push(source_packets(&encoder, block));
            block = block + 1;
        }
        proof {
            assert((next_id as int) <= SYMBOL_IDS * blocks) by (nonlinear_arith)
                requires
                    (next_id as int) / (blocks as int) < SYMBOL_IDS,
                    blocks > 0,
            ;
        }
        Some(RaptorqSender { encoder, info, sources, next_id })
    }

    fn has_next(&self) -> (b: bool) {
        proof {
            use_type_invariant(self);
        }
        self.next_id / (self.sources.len() as u32) < SYMBOL_IDS
    }

    fn next_frame(&mut self) -> (frame: (u32, Vec<u8>)) {
        proof {
            use_type_invariant(&*self);
        }
        let blocks: u32 = self.sources.len() as u32;
        let id: u32 = self.next_id;
        let block: usize = (id % blocks) as usize;
        let symbol: u32 = id / blocks;
        let held: usize = self.sources[block].len();
        let payload: Vec<u8> = if (symbol as usize) < held {
            let packet = self.sources[block][symbol as usize].clone();
            assert(packet@ =~= self.sources@[block as int]@[symbol as int]@);
            packet
        } else {
            repair_packet(&self.encoder, block, symbol - held as u32)
        };
        proof {
            assert(id as int + 1 <= SYMBOL_IDS * blocks) by (nonlinear_arith)
                requires
                    (id as int) / (blocks as int) < SYMBOL_IDS,
                    blocks > 0,
                    id >= 0,
            ;
        }
        self.next_id = id + 1;
        (id, payload)
    }

    fn get_transmission_info(&self) -> (info: [u8; TRANSMISSION_INFO_LENGTH]) {
        self.info
    }
}

/// The RaptorQ decoder of one chunk.
pub struct RaptorqReceiver {
    /// The decoder, which is there but while it takes a packet.
    decoder: Option<Decoder>,
    expected_frame_id: u32,
    /// The length of a serialized packet of the chunk.
    packet_len: usize,
    /// The number of source blocks of the chunk.
    blocks: u8,
    /// The number of source symbols of the chunk.
    symbols: u64,
}

/// Tells whether a symbol of a block of `symbols` source symbols is one that the
/// tuple generator overflows on.
fn symbol_overflows(symbols: u64, symbol: u64) -> (b: bool)
    ensures
        b == tuple_overflows(symbols as int, symbol as int),
{
    (978 <= symbols && symbols <= 989 && symbol == 3157240 + symbols) || (2153 <= symbols
        && symbols <= 2195 && symbol == 8190682 + symbols)
}

impl RaptorqReceiver {
    #[verifier::type_invariant]
    spec fn well_formed(&self) -> bool {
        &&& self.symbols <= 0x200_0000_0000
        &&& self.decoder matches Some(d) ==> {
            &&& info_in_order(decoder_info(d))
            &&& self.packet_len == 4 + info_symbol_size(decoder_info(d))
            &&& self.blocks == info_blocks(decoder_info(d))
            &&& self.symbols == info_symbols(decoder_info(d))
        }
    }

    /// The transmission info that the decoder was made from, its reserved byte
    /// zero.
    pub closed spec fn spec_info(&self) -> Seq<u8> {
        match self.decoder {
            Some(d) => decoder_info(d),
            None => Seq::empty(),
        }
    }

    /// Whether a frame is a packet that the decoder can take.
    pub closed spec fn takes(&self, frame: Seq<u8>) -> bool {
        self.decoder is Some && packet_fits(self.spec_info(), frame)
    }
}

impl FrameReceiver<TRANSMISSION_INFO_LENGTH> for RaptorqReceiver {
    closed spec fn spec_expected_frame_id(&self) -> u32 {
        self.expected_frame_id
    }

    open spec fn accepts(info: Seq<u8>) -> bool {
        info_in_order(info)
    }

    open spec fn first_outcome(info: Seq<u8>, frame_id: u32, frame: Seq<u8>) -> Option<Seq<u8>> {
        if packet_fits(info, frame) {
            raptorq_decoded(info_fields(info), seq![frame])
        } else {
            None
        }
    }

    closed spec fn spec_outcome(&self, frame_id: u32, frame: Seq<u8>) -> Option<Seq<u8>> {
        match self.decoder {
            Some(d) => if packet_fits(decoder_info(d), frame) {
                decode_of(d, frame)
            } else {
                None
            },
            None => None,
        }
    }

    fn try_init(frame: &[u8; TRANSMISSION_INFO_LENGTH]) -> (receiver: Option<Self>)
        ensures
            receiver matches Some(r) ==> r.spec_info() == info_fields(frame@),
    {
        let length: u64 = (frame[0] as u64) * 0x1_0000_0000 + (frame[1] as u64) * 0x100_0000 + (
        frame[2] as u64) * 0x1_0000 + (frame[3] as u64) * 0x100 + (frame[4] as u64);
        let symbol_size: u64 = (frame[6] as u64) * 0x100 + (frame[7] as u64);
        let blocks: u8 = frame[8];
        let sub_blocks: u64 = (frame[9] as u64) * 0x100 + (frame[10] as u64);
        let alignment: u8 = frame[11];
        if symbol_size == 0 || alignment == 0 || symbol_size % (alignment as u64) != 0 || blocks
            == 0 || sub_blocks == 0 {
            return None;
        }
        let symbols: u64 = (length + symbol_size - 1) / symbol_size;
        proof {
            lemma_div_nonincreasing((length + symbol_size - 1) as int, symbol_size as int);
        }
        let per_block: u64 = (symbols + (blocks as u64) - 1) / (blocks as u64);
        if per_block > MAX_SYMBOLS_PER_BLOCK {
            return None;
        }
        let packet_len: usize = 4 + symbol_size as usize;
        let decoder = make_decoder(frame);
        proof {
            lemma_info_fields(frame@);
        }
        let receiver = RaptorqReceiver {
            decoder: Some(decoder),
            expected_frame_id: 0,
            packet_len,
            blocks,
            symbols,
        };
        Some(receiver)
    }

    fn update(&mut self, frame_id: u32, frame: &[u8]) -> (chunk: Option<Vec<u8>>)
        ensures
            final(self).spec_info() == old(self).spec_info(),
            forall|other: Seq<u8>| #[trigger] final(self).takes(other) == old(self).takes(other),
    {
        proof {
            use_type_invariant(&*self);
        }
        let next: u32 = if frame_id == u32::MAX {
            u32::MAX
        } else {
            frame_id + 1
        };
        let expected: u32 = if self.expected_frame_id < next {
            next
        } else {
            self.expected_frame_id
        };
        let packet_len: usize = self.packet_len;
        let blocks: u8 = self.blocks;
        let symbols: u64 = self.symbols;
        self.expected_frame_id = expected;
        if frame.len() < 4 || frame.len() != packet_len || frame[0] >= blocks {
            return None;
        }
        proof {
            lemma_div_nonincreasing(symbols as int, blocks as int);
        }
        let in_block: u64 = if (frame[0] as u64) < symbols % (blocks as u64) {
            symbols / (blocks as u64) + 1
        } else {
            symbols / (blocks as u64)
        };
        let symbol: u64 = (frame[1] as u64) * 0x1_0000 + (frame[2] as u64) * 0x100 + (
        frame[3] as u64);
        if symbol_overflows(in_block, symbol) {
            return None;
        }
        let mut moved = RaptorqReceiver {
            decoder: None,
            expected_frame_id: expected,
            packet_len,
            blocks,
            symbols,
        };
        core::mem::swap(self, &mut moved);
        match moved.decoder {
            Some(decoder) => {
                let mut decoder = decoder;
                let chunk = decode_packet(&mut decoder, frame);
                *self = RaptorqReceiver {
                    decoder: Some(decoder),
                    expected_frame_id: expected,
                    packet_len,
                    blocks,
                    symbols,
                };
                chunk
            },
            None => None,
        }
    }

    fn expected_frame_id(&self) -> (id: u32) {
        self.expected_frame_id
    }
}

} // verus!
