//! Small tools that the engine shares.
use vstd::prelude::*;

pub mod chunk_map;
pub mod timer;

verus! {

/// Values in a strict order, which can be raised or lowered to another value in
/// place.
pub trait Compare: Sized {
    /// Whether `self` comes before `other` in the order.
    spec fn comes_before(&self, other: &Self) -> bool;

    /// Replaces `self` by `other` where `other` is the greater.
    fn cmax(&mut self, other: Self)
        ensures
            *final(self) == if old(self).comes_before(&other) {
                other
            } else {
                *old(self)
            },
    ;

    /// Replaces `self` by `other` where `other` is the smaller.
    fn cmin(&mut self, other: Self)
        ensures
            *final(self) == if other.comes_before(old(self)) {
                other
            } else {
                *old(self)
            },
    ;
}

impl Compare for u32 {
    open spec fn comes_before(&self, other: &u32) -> bool {
        *self < *other
    }

    fn cmax(&mut self, other: u32) {
        if *self < other {
            *self = other;
        }
    }

    fn cmin(&mut self, other: u32) {
        if *self > other {
            *self = other;
        }
    }
}

impl Compare for u64 {
    open spec fn comes_before(&self, other: &u64) -> bool {
        *self < *other
    }

    fn cmax(&mut self, other: u64) {
        if *self < other {
            *self = other;
        }
    }

    fn cmin(&mut self, other: u64) {
        if *self > other {
            *self = other;
        }
    }
}

/// One byte from `rand`'s thread-local generator. Nothing is promised of the value.
#[verifier::external_body]
fn random_byte() -> (byte: u8) {
    rand::random::<u8>()
}

/// `size` random bytes.
pub fn generate_random(size: usize) -> (data: Vec<u8>)
    ensures
        data@.len() == size,
{
    let mut data: Vec<u8> = Vec::with_capacity(size);
    let mut i: usize = 0;
    while i < size
        invariant
            0 <= i <= size,
            data@.len() == i,
        decreases size - i,
    {
        data.push(random_byte());
        i = i + 1;
    }
    data
}

} // verus!
