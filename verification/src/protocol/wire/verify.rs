//! The verification tail of a packet: a CRC-64 for data packets, an Ed25519
//! signature over the BLAKE3 hash of the packet for tickets.
use bytes::Bytes;
use vstd::prelude::*;

use crate::constants::MTU;
use crate::protocol::key_ring::{
    ed25519_accepts, ed25519_signature, ed25519_valid_key, verify_strict, KeyRing, KeyRingView,
};
use crate::protocol::wire::buffer::{
    buffer_as_slice, buffer_from_vec, concat, contents, to_array,
};
use crate::protocol::wire::endian::{be64, from_be64, get_be64, put_be64};

verus! {

/// Length of the CRC-64 verification tail.
pub const CRC64_LEN: usize = 8;

/// The CRC-64/ECMA-182 checksum of `data`, as the `crc` crate computes it.
pub uninterp spec fn crc64_ecma_182(data: Seq<u8>) -> u64;

/// The 32-byte BLAKE3 hash of `data`, as the `blake3` crate computes it.
pub uninterp spec fn blake3_digest(data: Seq<u8>) -> Seq<u8>;

/// `crc::Crc::<u64>::checksum` with the CRC-64/ECMA-182 parameters.
#[verifier::external_body]
pub fn check_crc64(content: &[u8]) -> (crc: u64)
    ensures
        crc == crc64_ecma_182(content@),
{
    crc::Crc::<u64>::new(&crc::CRC_64_ECMA_182).checksum(content)
}

/// `blake3::hash`.
#[verifier::external_body]
pub(crate) fn blake3_hash(data: &[u8]) -> (digest: [u8; 32])
    ensures
        digest@ == blake3_digest(data@),
{
    *blake3::hash(data).as_bytes()
}

/// The states that a hasher goes through while it takes in `slices` one by one:
/// `states[0]` is the hasher as given, and `update` leads from each state to the
/// next.
pub open spec fn hashing_run<H, B, U: Fn(H, &B) -> H>(
    states: Seq<H>,
    hasher: H,
    slices: Seq<B>,
    update: U,
) -> bool {
    &&& states.len() == slices.len() + 1
    &&& states[0] == hasher
    &&& forall|i: int|
        0 <= i < slices.len() ==> update.ensures((states[i], &#[trigger] slices[i]), states[i + 1])
}

/// Feeds `slices` to a hasher in order and hands back what the hasher makes of them:
/// `update` takes the hasher from slice to slice, `finalize` turns its last state
/// into the result.
pub fn hash_slices<H, O, B, U: Fn(H, &B) -> H, F: FnOnce(H) -> O>(
    slices: &Vec<B>,
    hasher: H,
    update: U,
    finalize: F,
) -> (out: O)
    requires
        forall|h: H, i: int|
            0 <= i < slices@.len() ==> update.requires((h, &#[trigger] slices@[i])),
        forall|h: H| finalize.requires((h,)),
    ensures
        exists|states: Seq<H>|
            hashing_run(states, hasher, slices@, update) && finalize.ensures(
                (#[trigger] states[slices@.len() as int],),
                out,
            ),
{
    let ghost first = hasher;
    let mut state = hasher;
    let ghost mut states: Seq<H> = seq![first];
    let mut i: usize = 0;
    while i < slices.len()
        invariant
            0 <= i <= slices@.len(),
            states.len() == i + 1,
            states[0] == first,
            states[i as int] == state,
            forall|j: int|
                0 <= j < i ==> update.ensures((states[j], &#[trigger] slices@[j]), states[j + 1]),
            forall|h: H, j: int|
                0 <= j < slices@.len() ==> update.requires((h, &#[trigger] slices@[j])),
        decreases slices@.len() - i,
    {
        let ghost before = states;
        state = update(state, &slices[i]);
        proof {
            states = states.push(state);
            assert forall|j: int| 0 <= j < i + 1 implies update.ensures(
                (states[j], &#[trigger] slices@[j]),
                states[j + 1],
            ) by {
                if j < i {
                    assert(states[j] == before[j]);
                    assert(states[j + 1] == before[j + 1]);
                }
            }
        }
        i = i + 1;
    }
    let out = finalize(state);
    proof {
        assert(hashing_run(states, first, slices@, update));
        assert(finalize.ensures((states[slices@.len() as int],), out));
    }
    out
}

/// A hasher that starts empty and takes in each buffer whole has, after the first
/// `n` buffers, taken in their bytes laid end to end.
proof fn lemma_gathered(states: Seq<Vec<u8>>, parts: Seq<Bytes>, n: int)
    requires
        0 <= n <= parts.len(),
        states.len() == parts.len() + 1,
        states[0]@.len() == 0,
        forall|i: int|
            0 <= i < parts.len() ==> (#[trigger] states[i + 1])@ == states[i]@ + contents(parts[i]),
    ensures
        states[n]@ == concat(parts.subrange(0, n)),
    decreases n,
{
    if n == 0 {
        assert(parts.subrange(0, 0) =~= Seq::<Bytes>::empty());
        assert(states[0]@ =~= Seq::<u8>::empty());
    } else {
        lemma_gathered(states, parts, n - 1);
        assert(states[(n - 1) + 1]@ == states[n - 1]@ + contents(parts[n - 1]));
        crate::protocol::wire::buffer::lemma_concat_push(parts.subrange(0, n - 1), parts[n - 1]);
        assert(parts.subrange(0, n - 1).push(parts[n - 1]) =~= parts.subrange(0, n));
    }
}

/// The two ways a packet is verified.
#[derive(Debug, Clone, Copy, PartialEq, Eq)]
pub enum PacketVerifyType {
    CRC64,
    Ed25519,
}

/// Why a packet failed verification.
#[derive(Debug, Clone, Copy, PartialEq, Eq)]
pub enum PacketVerificationError {
    /// A key or a verification tail has the wrong length, or the key is no curve point.
    IncorrectLength,
    /// The packet is longer than the MTU.
    PacketTooLong,
    /// The signing key is not an authorized one.
    UnknownPublicKey,
    /// The checksum does not match the packet.
    CorruptContent,
    /// The signature does not match the packet.
    IncorrectSign,
}

/// A packet cut into what is verified and what it is verified against.
#[derive(Clone, Debug)]
pub enum PacketVerificationData<'a> {
    CRC64 {
        /// The packet without its verification tail.
        pkt: &'a [u8],
        /// The verification tail.
        crc64: &'a [u8],
    },
    Ed25519 {
        /// The packet without its verification tail.
        pkt: &'a [u8],
        /// The public key that the packet names.
        pub_key: &'a [u8],
        /// The verification tail.
        signature: &'a [u8],
    },
}

/// A packet cut into what is verified and what it is verified against, as byte
/// sequences.
pub enum VerificationView {
    CRC64 { pkt: Seq<u8>, crc64: Seq<u8> },
    Ed25519 { pkt: Seq<u8>, pub_key: Seq<u8>, signature: Seq<u8> },
}

impl VerificationView {
    /// The packet without its verification tail.
    pub open spec fn prefix(self) -> Seq<u8> {
        match self {
            Self::CRC64 { pkt, .. } => pkt,
            Self::Ed25519 { pkt, .. } => pkt,
        }
    }

    /// The verification tail.
    pub open spec fn tail(self) -> Seq<u8> {
        match self {
            Self::CRC64 { crc64, .. } => crc64,
            Self::Ed25519 { signature, .. } => signature,
        }
    }
}

impl<'a> View for PacketVerificationData<'a> {
    type V = VerificationView;

    open spec fn view(&self) -> VerificationView {
        match self {
            Self::CRC64 { pkt, crc64 } => VerificationView::CRC64 { pkt: pkt@, crc64: crc64@ },
            Self::Ed25519 { pkt, pub_key, signature } => VerificationView::Ed25519 {
                pkt: pkt@,
                pub_key: pub_key@,
                signature: signature@,
            },
        }
    }
}

impl<'a> PacketVerificationData<'a> {
    /// Length of the packet without its verification tail.
    pub fn pkt_len(&self) -> (n: usize)
        ensures
            n == self@.prefix().len(),
    {
        match self {
            Self::CRC64 { pkt, .. } => pkt.len(),
            Self::Ed25519 { pkt, .. } => pkt.len(),
        }
    }

    /// Tells whether the whole packet, tail included, is longer than the MTU.
    pub fn too_long(&self) -> (b: bool)
        ensures
            b == (self@.prefix().len() + self@.tail().len() > MTU),
    {
        let tail_len: usize = match self {
            Self::CRC64 { crc64, .. } => crc64.len(),
            Self::Ed25519 { signature, .. } => signature.len(),
        };
        let n: usize = self.pkt_len();
        n > MTU || tail_len > MTU - n
    }
}

/// The outcome of checking a CRC-64 tail against a packet.
pub open spec fn crc64_outcome(pkt: Seq<u8>, crc64: Seq<u8>) -> Result<
    (),
    PacketVerificationError,
> {
    if crc64.len() != CRC64_LEN {
        Err(PacketVerificationError::IncorrectLength)
    } else if from_be64(crc64) == crc64_ecma_182(pkt) {
        Ok(())
    } else {
        Err(PacketVerificationError::CorruptContent)
    }
}

/// The outcome of checking an Ed25519 tail against a packet: the key must be a
/// curve point and an authorized one, and the signature must be one of the BLAKE3
/// hash of the packet under that key.
pub open spec fn ed25519_outcome(
    ring: KeyRingView,
    pkt: Seq<u8>,
    pub_key: Seq<u8>,
    signature: Seq<u8>,
) -> Result<(), PacketVerificationError> {
    if pub_key.len() != 32 || !ed25519_valid_key(pub_key) {
        Err(PacketVerificationError::IncorrectLength)
    } else if !ring.public_keys.contains(pub_key) {
        Err(PacketVerificationError::UnknownPublicKey)
    } else if signature.len() != 64 {
        Err(PacketVerificationError::IncorrectLength)
    } else if ed25519_accepts(pub_key, blake3_digest(pkt), signature) {
        Ok(())
    } else {
        Err(PacketVerificationError::IncorrectSign)
    }
}

/// The outcome of verifying a packet against a key ring.
pub open spec fn verification_outcome(ring: KeyRingView, data: VerificationView) -> Result<
    (),
    PacketVerificationError,
> {
    if data.prefix().len() + data.tail().len() > MTU {
        Err(PacketVerificationError::PacketTooLong)
    } else {
        match data {
            VerificationView::CRC64 { pkt, crc64 } => crc64_outcome(pkt, crc64),
            VerificationView::Ed25519 { pkt, pub_key, signature } => ed25519_outcome(
                ring,
                pkt,
                pub_key,
                signature,
            ),
        }
    }
}

/// A packet whose key is a curve point but not an authorized one fails with
/// [`PacketVerificationError::UnknownPublicKey`], whatever its signature, unless it
/// is too long to be looked at.
pub proof fn lemma_unknown_key_is_refused(
    ring: KeyRingView,
    pkt: Seq<u8>,
    pub_key: Seq<u8>,
    signature: Seq<u8>,
)
    requires
        pkt.len() + signature.len() <= MTU,
        pub_key.len() == 32,
        ed25519_valid_key(pub_key),
        !ring.public_keys.contains(pub_key),
    ensures
        verification_outcome(ring, VerificationView::Ed25519 { pkt, pub_key, signature }) == Err::<
            (),
            PacketVerificationError,
        >(PacketVerificationError::UnknownPublicKey),
{
}

/// A packet verifies by checksum exactly where its tail is the checksum that
/// [`KeyRing::sign`] makes of it: the eight bytes of its CRC-64.
pub proof fn lemma_crc64_accepts_its_own(ring: KeyRingView, pkt: Seq<u8>, crc64: Seq<u8>)
    requires
        pkt.len() + crc64.len() <= MTU,
    ensures
        verification_outcome(ring, VerificationView::CRC64 { pkt, crc64 }) is Ok <==> crc64
            == signature_of(ring, PacketVerifyType::CRC64, pkt),
{
    let own = be64(crc64_ecma_182(pkt));
    crate::protocol::wire::endian::lemma_be64_decode_encode(crc64_ecma_182(pkt));
    if crc64.len() == 8 {
        crate::protocol::wire::endian::lemma_be64_encode_decode(crc64);
    }
}

/// The length of the verification tail of a packet.
pub open spec fn tail_len(kind: PacketVerifyType) -> nat {
    match kind {
        PacketVerifyType::CRC64 => CRC64_LEN as nat,
        PacketVerifyType::Ed25519 => 64,
    }
}

/// The verification tail of a packet whose bytes are `pkt`.
pub open spec fn signature_of(ring: KeyRingView, kind: PacketVerifyType, pkt: Seq<u8>) -> Seq<u8>
    recommends
        kind is Ed25519 ==> ring.private_key is Some,
{
    match kind {
        PacketVerifyType::CRC64 => be64(crc64_ecma_182(pkt)),
        PacketVerifyType::Ed25519 => ed25519_signature(
            ring.private_key.unwrap(),
            blake3_digest(pkt),
        ),
    }
}

impl KeyRing {
    /// Computes the verification tail of the packet whose bytes are the buffers of
    /// `pkt`, laid end to end. Signing takes the private key.
    pub fn sign(&self, verification_type: PacketVerifyType, pkt: &Vec<Bytes>) -> (tail: Bytes)
        requires
            verification_type is Ed25519 ==> self@.private_key is Some,
        ensures
            contents(tail) == signature_of(self@, verification_type, concat(pkt@)),
            contents(tail).len() == tail_len(verification_type),
    {
        let gather = |all: Vec<u8>, part: &Bytes| -> (more: Vec<u8>)
            ensures
                more@ == all@ + contents(*part),
            {
                let mut more = all;
                more.extend_from_slice(buffer_as_slice(part));
                assert(more@ =~= all@ + contents(*part));
                more
            };
        let start: Vec<u8> = Vec::new();
        let ghost empty = start;
        match verification_type {
            PacketVerifyType::CRC64 => {
                let sum = |all: Vec<u8>| -> (crc: u64)
                    ensures
                        crc == crc64_ecma_182(all@),
                    { check_crc64(all.as_slice()) };
                let crc = hash_slices(pkt, start, gather, sum);
                proof {
                    let states = choose|states: Seq<Vec<u8>>|
                        hashing_run(states, empty, pkt@, gather) && sum.ensures(
                            (#[trigger] states[pkt@.len() as int],),
                            crc,
                        );
                    lemma_gathered(states, pkt@, pkt@.len() as int);
                    assert(pkt@.subrange(0, pkt@.len() as int) =~= pkt@);
                }
                let mut out: Vec<u8> = Vec::new();
                put_be64(&mut out, crc);
                assert(out@ =~= be64(crc));
                buffer_from_vec(out)
            },
            PacketVerifyType::Ed25519 => {
                let digest = |all: Vec<u8>| -> (hash: [u8; 32])
                    ensures
                        hash@ == blake3_digest(all@),
                    { blake3_hash(all.as_slice()) };
                let hash = hash_slices(pkt, start, gather, digest);
                proof {
                    let states = choose|states: Seq<Vec<u8>>|
                        hashing_run(states, empty, pkt@, gather) && digest.ensures(
                            (#[trigger] states[pkt@.len() as int],),
                            hash,
                        );
                    lemma_gathered(states, pkt@, pkt@.len() as int);
                    assert(pkt@.subrange(0, pkt@.len() as int) =~= pkt@);
                }
                let signature = self.sign_with_private_key(hash.as_slice()).unwrap();
                let out = vstd::slice::slice_to_vec(signature.as_slice());
                buffer_from_vec(out)
            },
        }
    }

    fn verify_ed25519(&self, pkt: &[u8], pub_key: &[u8], signature: &[u8]) -> (r: Result<
        (),
        PacketVerificationError,
    >)
        ensures
            r == ed25519_outcome(self@, pkt@, pub_key@, signature@),
    {
        let key: [u8; 32] = self.parse_and_check_key(pub_key)?;
        if signature.len() != 64 {
            return Err(PacketVerificationError::IncorrectLength);
        }
        let sig: [u8; 64] = to_array(signature);
        let hash = blake3_hash(pkt);
        if verify_strict(&key, hash.as_slice(), &sig) {
            Ok(())
        } else {
            Err(PacketVerificationError::IncorrectSign)
        }
    }

    fn parse_and_check_key(&self, pub_key: &[u8]) -> (r: Result<
        [u8; 32],
        PacketVerificationError,
    >)
        ensures
            match r {
                Ok(key) => key@ == pub_key@ && ed25519_valid_key(pub_key@)
                    && self@.public_keys.contains(pub_key@),
                Err(e) => if pub_key@.len() != 32 || !ed25519_valid_key(pub_key@) {
                    e == PacketVerificationError::IncorrectLength
                } else {
                    e == PacketVerificationError::UnknownPublicKey
                        && !self@.public_keys.contains(pub_key@)
                },
            },
    {
        if pub_key.len() != 32 {
            return Err(PacketVerificationError::IncorrectLength);
        }
        let key: [u8; 32] = to_array(pub_key);
        if !crate::protocol::key_ring::check_public_key(&key) {
            return Err(PacketVerificationError::IncorrectLength);
        }
        if !self.contains_public_key(pub_key) {
            return Err(PacketVerificationError::UnknownPublicKey);
        }
        Ok(key)
    }

    fn verify_crc64(pkt: &[u8], crc64: &[u8]) -> (r: Result<(), PacketVerificationError>)
        ensures
            r == crc64_outcome(pkt@, crc64@),
    {
        if crc64.len() != CRC64_LEN {
            return Err(PacketVerificationError::IncorrectLength);
        }
        assert(crc64@.subrange(0, 8) =~= crc64@);
        if get_be64(crc64, 0) == check_crc64(pkt) {
            Ok(())
        } else {
            Err(PacketVerificationError::CorruptContent)
        }
    }

    /// Verifies a packet: its length against the MTU, then its tail against its
    /// bytes, by checksum or by signature.
    pub fn verify<'a>(&self, data: PacketVerificationData<'a>) -> (r: Result<
        (),
        PacketVerificationError,
    >)
        ensures
            r == verification_outcome(self@, data@),
    {
        if data.too_long() {
            return Err(PacketVerificationError::PacketTooLong);
        }
        match data {
            PacketVerificationData::CRC64 { pkt, crc64 } => Self::verify_crc64(pkt, crc64),
            PacketVerificationData::Ed25519 { pkt, pub_key, signature } => self.verify_ed25519(
                pkt,
                pub_key,
                signature,
            ),
        }
    }
}

} // verus!
