//! Shared byte buffers.
//!
//! Payloads travel through the codec as [`bytes::Bytes`], so that a parsed frame can
//! share storage with the datagram it came from. The items here are the contracts
//! under which the codec uses that type; they are stated, not proved.
use bytes::Bytes;
use vstd::prelude::*;

verus! {

/// `bytes::Bytes`, a cheaply cloneable and sliceable chunk of contiguous memory.
#[verifier::external_type_specification]
#[verifier::external_body]
pub struct ExBytes(bytes::Bytes);

/// The bytes that a buffer holds, in order.
pub uninterp spec fn contents(b: Bytes) -> Seq<u8>;

/// `Bytes::len`: the number of bytes in the buffer.
#[verifier::external_body]
pub(crate) fn buffer_len(b: &Bytes) -> (n: usize)
    ensures
        n == contents(*b).len(),
{
    b.len()
}

/// `Bytes::as_ref`: the buffer's bytes as a slice.
#[verifier::external_body]
pub(crate) fn buffer_as_slice(b: &Bytes) -> (s: &[u8])
    ensures
        s@ == contents(*b),
{
    b.as_ref()
}

/// `Bytes::slice`: a buffer that shares the bytes `begin..end` of `b`. The outside
/// function panics when the range is reversed or reaches past the end, which the
/// precondition excludes.
#[verifier::external_body]
pub(crate) fn buffer_slice(b: &Bytes, begin: usize, end: usize) -> (r: Bytes)
    requires
        begin <= end <= contents(*b).len(),
    ensures
        contents(r) == contents(*b).subrange(begin as int, end as int),
{
    b.slice(begin..end)
}

/// `Bytes::from(Vec<u8>)`: a buffer that takes over the vector's bytes.
#[verifier::external_body]
pub(crate) fn buffer_from_vec(v: Vec<u8>) -> (r: Bytes)
    ensures
        contents(r) == v@,
{
    Bytes::from(v)
}

/// Copies a slice of exactly `N` bytes into an array.
pub fn to_array<const N: usize>(s: &[u8]) -> (a: [u8; N])
    requires
        s@.len() == N,
    ensures
        a@ == s@,
{
    let mut a: [u8; N] = [0u8; N];
    let mut i: usize = 0;
    while i < N
        invariant
            0 <= i <= N,
            s@.len() == N,
            a@.len() == N,
            forall|j: int| 0 <= j < i ==> a@[j] == s@[j],
        decreases N - i,
    {
        a[i] = s[i];
        i = i + 1;
    }
    assert(a@ =~= s@);
    a
}

/// The bytes of a list of buffers, laid end to end.
pub open spec fn concat(parts: Seq<Bytes>) -> Seq<u8>
    decreases parts.len(),
{
    if parts.len() == 0 {
        Seq::empty()
    } else {
        concat(parts.drop_last()) + contents(parts.last())
    }
}

/// Appending one buffer to a list appends its bytes to the list's bytes.
pub proof fn lemma_concat_push(parts: Seq<Bytes>, b: Bytes)
    ensures
        concat(parts.push(b)) == concat(parts) + contents(b),
{
    assert(parts.push(b).drop_last() =~= parts);
}

/// Copies the bytes of a list of buffers into one vector.
pub fn flatten(parts: &Vec<Bytes>) -> (out: Vec<u8>)
    ensures
        out@ == concat(parts@),
{
    let mut out: Vec<u8> = Vec::new();
    let mut i: usize = 0;
    while i < parts.len()
        invariant
            0 <= i <= parts@.len(),
            out@ == concat(parts@.subrange(0, i as int)),
        decreases parts@.len() - i,
    {
        let s = buffer_as_slice(&parts[i]);
        let ghost before = out@;
        out.extend_from_slice(s);
        proof {
            assert(out@ =~= before + s@);
            lemma_concat_push(parts@.subrange(0, i as int), parts@[i as int]);
            assert(parts@.subrange(0, i as int).push(parts@[i as int]) =~= parts@.subrange(
                0,
                i + 1,
            ));
        }
        i = i + 1;
    }
    assert(parts@.subrange(0, parts@.len() as int) =~= parts@);
    out
}

} // verus!
