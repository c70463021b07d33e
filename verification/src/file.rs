//! Where the chunks of the files on offer lie, and which stretch of a file may be
//! mapped.
use vstd::prelude::*;

use crate::plan::{FileChunk, FileConfig};
use crate::util::chunk_map::ChunkMap;

verus! {

/// Why a stretch of a file cannot be mapped.
#[derive(Debug, Clone, Copy, PartialEq, Eq)]
pub enum SegmentError {
    /// The offset is no multiple of the page size.
    UnalignedOffset,
    /// Offset and length together do not fit 64 bits.
    RangeOverflow,
    /// The stretch reaches past the end of the file.
    ExceedsFile,
}

/// Whether the stretch of `length` bytes at `offset` of a file of `file_size` bytes
/// can be mapped, with pages of `page_size` bytes: the offset is page-aligned, and
/// the stretch ends within the file.
pub open spec fn segment_check(
    file_size: u64,
    page_size: u64,
    offset: u64,
    length: usize,
) -> Result<(), SegmentError>
    recommends
        page_size > 0,
{
    if offset as int % page_size as int != 0 {
        Err(SegmentError::UnalignedOffset)
    } else if offset + length > u64::MAX {
        Err(SegmentError::RangeOverflow)
    } else if offset + length > file_size {
        Err(SegmentError::ExceedsFile)
    } else {
        Ok(())
    }
}

/// Checks that a stretch of a file can be mapped.
pub fn check_segment(file_size: u64, page_size: u64, offset: u64, length: usize) -> (r: Result<
    (),
    SegmentError,
>)
    requires
        page_size > 0,
    ensures
        r == segment_check(file_size, page_size, offset, length),
{
    if offset % page_size != 0 {
        return Err(SegmentError::UnalignedOffset);
    }
    let end: u64 = match offset.checked_add(length as u64) {
        Some(end) => end,
        None => {
            return Err(SegmentError::RangeOverflow);
        },
    };
    if end > file_size {
        return Err(SegmentError::ExceedsFile);
    }
    Ok(())
}

/// Where a chunk lies: the key of its file, its offset in the file and its length.
#[derive(Debug, Clone, Copy, PartialEq, Eq, Structural)]
pub struct ChunkPlace {
    pub file_key: usize,
    pub offset: u64,
    pub length: usize,
}

/// The places of the chunks of a plan in the file under `file_key`, by chunk id. Of
/// two chunks with one id the later counts.
pub open spec fn places_of(chunks: Seq<FileChunk>, file_key: usize) -> Map<u32, ChunkPlace>
    decreases chunks.len(),
{
    if chunks.len() == 0 {
        Map::empty()
    } else {
        places_of(chunks.drop_last(), file_key).insert(
            chunks.last().chunk_id,
            ChunkPlace { file_key, offset: chunks.last().offset, length: chunks.last().length },
        )
    }
}

/// The chunks on offer, by chunk id, and the paths of their files, by file key. It
/// is made once and read thereafter.
#[derive(Debug)]
pub struct ChunkIndex {
    files: Vec<(usize, String)>,
    chunks: ChunkMap<ChunkPlace>,
}

impl ChunkIndex {
    /// The place of each chunk on offer.
    pub closed spec fn places(&self) -> Map<u32, ChunkPlace> {
        self.chunks@
    }

    /// The files on offer, as pairs of key and path. Of two files under one key the
    /// first is found.
    pub closed spec fn files(&self) -> Seq<(usize, String)> {
        self.files@
    }

    /// The index of the chunks of one file, which gets the key `file_key`.
    pub fn of_file(config: &FileConfig, file_key: usize, path: String) -> (index: Self)
        ensures
            index.files() == seq![(file_key, path)],
            index.places() == places_of(config.chunks@, file_key),
    {
        let mut chunks: ChunkMap<ChunkPlace> = ChunkMap::new();
        let mut i: usize = 0;
        assert(config.chunks@.subrange(0, 0) =~= Seq::<FileChunk>::empty());
        while i < config.chunks.len()
            invariant
                0 <= i <= config.chunks@.len(),
                chunks@ == places_of(config.chunks@.subrange(0, i as int), file_key),
            decreases config.chunks@.len() - i,
        {
            let chunk = &config.chunks[i];
            proof {
                let upto = config.chunks@.subrange(0, i + 1);
                assert(upto.drop_last() =~= config.chunks@.subrange(0, i as int));
                assert(upto.last() == config.chunks@[i as int]);
            }
            chunks.insert(
                chunk.chunk_id,
                ChunkPlace { file_key, offset: chunk.offset, length: chunk.length },
            );
            i = i + 1;
        }
        assert(config.chunks@.subrange(0, config.chunks@.len() as int) =~= config.chunks@);
        let mut files: Vec<(usize, String)> = Vec::new();
        files.push((file_key, path));
        ChunkIndex { files, chunks }
    }

    /// The path of the file under `file_key`, if there is one.
    fn path_of(&self, file_key: usize) -> (path: Option<&String>)
        ensures
            path is Some <==> exists|i: int|
                0 <= i < self.files().len() && (#[trigger] self.files()[i]).0 == file_key,
            path matches Some(p) ==> exists|i: int|
                0 <= i < self.files().len() && #[trigger] self.files()[i] == (file_key, *p),
    {
        let mut i: usize = 0;
        while i < self.files.len()
            invariant
                0 <= i <= self.files@.len(),
                forall|j: int| 0 <= j < i ==> (#[trigger] self.files@[j]).0 != file_key,
            decreases self.files@.len() - i,
        {
            if self.files[i].0 == file_key {
                assert(self.files()[i as int] == (file_key, self.files@[i as int].1));
                return Some(&self.files[i].1);
            }
            i = i + 1;
        }
        None
    }

    /// Where chunk `chunk_id` lies: the path of its file, its offset and its length.
    /// A chunk that is not on offer, or whose file is not, lies nowhere.
    pub fn get(&self, chunk_id: u32) -> (found: Option<(&String, u64, usize)>)
        ensures
            found is Some ==> self.places().dom().contains(chunk_id),
            found matches Some((path, offset, length)) ==> {
                &&& offset == self.places()[chunk_id].offset
                &&& length == self.places()[chunk_id].length
                &&& exists|i: int|
                    0 <= i < self.files().len() && #[trigger] self.files()[i] == (
                        self.places()[chunk_id].file_key,
                        *path,
                    )
            },
            found is None <==> (!self.places().dom().contains(chunk_id) || forall|i: int|
                0 <= i < self.files().len() ==> (#[trigger] self.files()[i]).0
                    != self.places()[chunk_id].file_key),
    {
        let place = match self.chunks.get(chunk_id) {
            Some(place) => *place,
            None => {
                return None;
            },
        };
        match self.path_of(place.file_key) {
            Some(path) => Some((path, place.offset, place.length)),
            None => None,
        }
    }
}

} // verus!
