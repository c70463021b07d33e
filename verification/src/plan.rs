//! Partition of a file into page-aligned chunks.
//!
//! A file of `L` bytes is cut into full chunks of [`CHUNK_SIZE`] bytes, followed by
//! one or two tail chunks. When more than one chunk's worth of bytes is left for the
//! tail, it is split in two halves at a page boundary, the first half being the
//! larger one.
use vstd::prelude::*;

use crate::constants::{CHUNK_SIZE, DEFAULT_PAGE_SIZE};

verus! {

/// One chunk of a planned file.
#[derive(Debug, Clone)]
pub struct FileChunk {
    /// Position of the chunk in the plan.
    pub chunk_id: u32,
    /// Hex-encoded BLAKE3 hash of the chunk's bytes.
    pub hash: String,
    /// Byte offset of the chunk in the file.
    pub offset: u64,
    /// Number of bytes in the chunk.
    pub length: usize,
}

/// The transmission plan of one file.
#[derive(Debug, Clone)]
pub struct FileConfig {
    pub file_name: String,
    pub total_length: u64,
    /// Hex-encoded BLAKE3 hash of the whole file.
    pub total_hash: String,
    pub chunks: Vec<FileChunk>,
}

/// Number of full-size chunks at the head of the plan of a file of `file_length` bytes.
pub open spec fn full_chunks(file_length: u64) -> int {
    let full = file_length as int / CHUNK_SIZE as int;
    if full >= 1 {
        full - 1
    } else {
        0
    }
}

/// Number of bytes that follow the full-size chunks.
pub open spec fn tail_bytes(file_length: u64) -> int {
    file_length as int - full_chunks(file_length) * CHUNK_SIZE as int
}

/// Length of the penultimate chunk, or 0 when the tail is one chunk only.
pub open spec fn first_tail_len(file_length: u64) -> int {
    let remain = tail_bytes(file_length);
    let pages = remain / DEFAULT_PAGE_SIZE as int;
    if remain > CHUNK_SIZE as int {
        ((pages + 1) / 2) * DEFAULT_PAGE_SIZE as int
    } else {
        0
    }
}

/// Number of chunks in the plan.
pub open spec fn plan_len(file_length: u64) -> int {
    full_chunks(file_length) + (if first_tail_len(file_length) > 0 {
        2int
    } else {
        1int
    })
}

/// Offset of the `i`-th chunk of the plan.
pub open spec fn plan_offset(file_length: u64, i: int) -> int {
    let full = full_chunks(file_length);
    if i <= full {
        i * CHUNK_SIZE as int
    } else {
        full * CHUNK_SIZE as int + first_tail_len(file_length)
    }
}

/// Length of the `i`-th chunk of the plan.
pub open spec fn plan_length(file_length: u64, i: int) -> int {
    let full = full_chunks(file_length);
    if i < full {
        CHUNK_SIZE as int
    } else if i + 1 < plan_len(file_length) {
        first_tail_len(file_length)
    } else {
        tail_bytes(file_length) - first_tail_len(file_length)
    }
}

/// The plan of a file of `file_length` bytes: its chunks as `(offset, length)` pairs,
/// in file order.
pub open spec fn plan_of(file_length: u64) -> Seq<(u64, usize)> {
    Seq::new(
        plan_len(file_length) as nat,
        |i: int| (plan_offset(file_length, i) as u64, plan_length(file_length, i) as usize),
    )
}

/// Bounds on the pieces of a plan: every offset and length is what the integer
/// formulas say, without truncation.
pub proof fn lemma_plan_bounds(file_length: u64, i: int)
    requires
        0 <= i < plan_len(file_length),
    ensures
        0 <= plan_offset(file_length, i) <= file_length,
        0 <= plan_length(file_length, i) <= CHUNK_SIZE,
        plan_offset(file_length, i) + plan_length(file_length, i) <= file_length,
        plan_of(file_length)[i].0 == plan_offset(file_length, i),
        plan_of(file_length)[i].1 == plan_length(file_length, i),
        plan_offset(file_length, i) % (DEFAULT_PAGE_SIZE as int) == 0,
        i + 1 < plan_len(file_length) ==> plan_length(file_length, i) % (DEFAULT_PAGE_SIZE as int)
            == 0,
        file_length >= 1 ==> plan_length(file_length, i) >= 1,
{
    let full = full_chunks(file_length);
    let half = (tail_bytes(file_length) / DEFAULT_PAGE_SIZE as int + 1) / 2;
    assert((half * 4096) % 4096 == 0) by (nonlinear_arith);
    assert((full * 8192 * 4096) % 4096 == 0) by (nonlinear_arith);
    assert(((full * 8192 + half) * 4096) % 4096 == 0) by (nonlinear_arith);
    assert((i * 8192 * 4096) % 4096 == 0) by (nonlinear_arith);
}

/// The plan of a non-empty file partitions `[0, file_length)`: it starts at 0, each
/// chunk begins where the one before it ends, and the last one ends at `file_length`.
/// Every offset and every length but the last is a multiple of the page size, no
/// chunk is empty and none exceeds the chunk size, and all chunks but the last two
/// are of the chunk size.
pub proof fn lemma_plan_partitions(file_length: u64)
    requires
        file_length >= 1,
    ensures
        plan_of(file_length).len() >= 1,
        plan_of(file_length)[0].0 == 0,
        forall|i: int|
            0 <= i < plan_of(file_length).len() - 1 ==> #[trigger] plan_of(file_length)[i + 1].0
                == plan_of(file_length)[i].0 + plan_of(file_length)[i].1,
        plan_of(file_length).last().0 + plan_of(file_length).last().1 == file_length,
        forall|i: int|
            0 <= i < plan_of(file_length).len() ==> (#[trigger] plan_of(file_length)[i]).0
                % (DEFAULT_PAGE_SIZE as u64) == 0,
        forall|i: int|
            0 <= i < plan_of(file_length).len() - 1 ==> (#[trigger] plan_of(file_length)[i]).1
                % DEFAULT_PAGE_SIZE == 0,
        forall|i: int|
            0 <= i < plan_of(file_length).len() ==> 1 <= (#[trigger] plan_of(file_length)[i]).1
                <= CHUNK_SIZE,
        forall|i: int|
            0 <= i < plan_of(file_length).len() - 2 ==> (#[trigger] plan_of(file_length)[i]).1
                == CHUNK_SIZE,
{
    let plan = plan_of(file_length);
    assert forall|i: int| 0 <= i < plan.len() - 2 implies (#[trigger] plan[i]).1
        == CHUNK_SIZE by {
        lemma_plan_bounds(file_length, i);
    }
    assert forall|i: int| 0 <= i < plan.len() - 1 implies #[trigger] plan[i + 1].0 == plan[i].0
        + plan[i].1 by {
        lemma_plan_bounds(file_length, i);
        lemma_plan_bounds(file_length, i + 1);
    }
    lemma_plan_bounds(file_length, plan.len() - 1);
    assert forall|i: int| 0 <= i < plan.len() implies (#[trigger] plan[i]).0 % (
    DEFAULT_PAGE_SIZE as u64) == 0 by {
        lemma_plan_bounds(file_length, i);
    }
    assert forall|i: int| 0 <= i < plan.len() - 1 implies (#[trigger] plan[i]).1
        % DEFAULT_PAGE_SIZE == 0 by {
        lemma_plan_bounds(file_length, i);
    }
    assert forall|i: int| 0 <= i < plan.len() implies 1 <= (#[trigger] plan[i]).1
        <= CHUNK_SIZE by {
        lemma_plan_bounds(file_length, i);
    }
}

/// Plans a file of `file_length` bytes: the `(offset, length)` pairs of its chunks, in
/// file order.
pub fn make_plan(file_length: u64) -> (plan: Vec<(u64, usize)>)
    ensures
        plan@ == plan_of(file_length),
{
    let chunk: u64 = CHUNK_SIZE as u64;
    let page: u64 = DEFAULT_PAGE_SIZE as u64;
    let full: u64 = file_length / chunk;
    let full_used: u64 = if full >= 1 {
        full - 1
    } else {
        0
    };
    let tail_1_offset: u64 = full_used * chunk;
    let remain_bytes: u64 = file_length - tail_1_offset;
    let remain_pages: u64 = remain_bytes / page;
    let tail_1_len: u64 = if remain_bytes > chunk {
        ((remain_pages + 1) / 2) * page
    } else {
        0
    };
    let tail_2_offset: u64 = tail_1_len + tail_1_offset;
    let tail_2_len: u64 = file_length - tail_2_offset;

    let mut plan: Vec<(u64, usize)> = Vec::new();
    let mut i: u64 = 0;
    while i < full_used
        invariant
            0 <= i <= full_used,
            chunk == CHUNK_SIZE,
            full_used == full_chunks(file_length),
            plan@.len() == i,
            forall|j: int| 0 <= j < i ==> #[trigger] plan@[j] == plan_of(file_length)[j],
        decreases full_used - i,
    {
        proof {
            lemma_plan_bounds(file_length, i as int);
        }
        plan.push((i * chunk, CHUNK_SIZE));
        i = i + 1;
    }
    if tail_1_len > 0 {
        proof {
            lemma_plan_bounds(file_length, full_used as int);
        }
        plan.push((tail_1_offset, tail_1_len as usize));
    }
    proof {
        lemma_plan_bounds(file_length, plan_len(file_length) - 1);
    }
    plan.push((tail_2_offset, tail_2_len as usize));
    assert(plan@ =~= plan_of(file_length));
    plan
}

impl FileConfig {
    /// The chunks lie exactly where the plan of `total_length` puts them, and each
    /// chunk's id is its position.
    pub open spec fn well_formed(&self) -> bool {
        &&& self.chunks@.len() == plan_of(self.total_length).len()
        &&& forall|i: int|
            0 <= i < self.chunks@.len() ==> {
                &&& (#[trigger] self.chunks@[i]).chunk_id == i
                &&& self.chunks@[i].offset == plan_of(self.total_length)[i].0
                &&& self.chunks@[i].length == plan_of(self.total_length)[i].1
            }
    }

    /// Tells whether the chunk table agrees with the plan of `total_length`.
    pub fn is_well_formed(&self) -> (ok: bool)
        ensures
            ok == self.well_formed(),
    {
        let plan = make_plan(self.total_length);
        if self.chunks.len() != plan.len() {
            return false;
        }
        let mut i: usize = 0;
        while i < plan.len()
            invariant
                0 <= i <= plan@.len(),
                plan@ == plan_of(self.total_length),
                self.chunks@.len() == plan@.len(),
                forall|j: int|
                    0 <= j < i ==> {
                        &&& (#[trigger] self.chunks@[j]).chunk_id == j
                        &&& self.chunks@[j].offset == plan@[j].0
                        &&& self.chunks@[j].length == plan@[j].1
                    },
            decreases plan@.len() - i,
        {
            let c = &self.chunks[i];
            let p = plan[i];
            if i > u32::MAX as usize || c.chunk_id != i as u32 || c.offset != p.0 || c.length
                != p.1 {
                return false;
            }
            i = i + 1;
        }
        true
    }
}

} // verus!
