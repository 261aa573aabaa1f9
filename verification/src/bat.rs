//! Translation of block allocation table entries into the byte ranges that a
//! block occupies in the image file.

use crate::error::DecodeError;
use vstd::prelude::*;

verus! {

/// Size in bytes of a sector, and of the sector bitmap in front of each
/// block's data.
pub const SECTOR_SIZE: u64 = 512;

/// The table entry that marks a block without storage.
pub const UNALLOCATED_ENTRY: u32 = 0xFFFF_FFFF;

/// The bytes of the file from `start` up to, and not including, `end`.
#[derive(Debug, Clone, Copy, PartialEq, Eq, Structural)]
pub struct ByteRange {
    pub start: u64,
    pub end: u64,
}

/// Where a logical block lives in the file.
#[derive(Debug, Clone, Copy, PartialEq, Eq, Structural)]
pub enum BlockRegions {
    /// The block has no storage in this file.
    Unallocated,
    /// The block's sector bitmap, and the block's data right behind it.
    Allocated { bitmap_range: ByteRange, data_range: ByteRange },
}

/// The regions of the block whose table entry is `entry`, for blocks of
/// `block_size` bytes: none for the sentinel entry; else the entry is a sector
/// number, the bitmap takes the 512 bytes from that sector on and the data the
/// `block_size` bytes behind the bitmap.
pub open spec fn regions_of(entry: u32, block_size: u32) -> BlockRegions {
    if entry == 0xFFFF_FFFFu32 {
        BlockRegions::Unallocated
    } else {
        BlockRegions::Allocated {
            bitmap_range: ByteRange {
                start: (entry * 512) as u64,
                end: (entry * 512 + 512) as u64,
            },
            data_range: ByteRange {
                start: (entry * 512 + 512) as u64,
                end: (entry * 512 + 512 + block_size) as u64,
            },
        }
    }
}

/// What translating `entry` gives: a block size of zero is refused, whatever
/// the entry.
pub open spec fn translation_of(entry: u32, block_size: u32) -> Result<BlockRegions, DecodeError> {
    if block_size == 0 {
        Err(DecodeError::InvalidBlockSize)
    } else {
        Ok(regions_of(entry, block_size))
    }
}

/// What translating a whole table gives: the regions of every entry, in table
/// order. A block size of zero is refused as soon as there is an entry to
/// translate.
pub open spec fn table_translation_of(entries: Seq<u32>, block_size: u32) -> Result<
    Seq<BlockRegions>,
    DecodeError,
> {
    if block_size == 0 && entries.len() > 0 {
        Err(DecodeError::InvalidBlockSize)
    } else {
        Ok(Seq::new(entries.len(), |i: int| regions_of(entries[i], block_size)))
    }
}

/// Translates one table entry into the regions of its block.
pub fn translate(entry: u32, block_size: u32) -> (result: Result<BlockRegions, DecodeError>)
    ensures
        result == translation_of(entry, block_size),
{
    if block_size == 0 {
        return Err(DecodeError::InvalidBlockSize);
    }
    if entry == UNALLOCATED_ENTRY {
        return Ok(BlockRegions::Unallocated);
    }
    let bitmap_start: u64 = entry as u64 * SECTOR_SIZE;
    let data_start: u64 = bitmap_start + SECTOR_SIZE;
    let data_end: u64 = data_start + block_size as u64;
    Ok(
        BlockRegions::Allocated {
            bitmap_range: ByteRange { start: bitmap_start, end: data_start },
            data_range: ByteRange { start: data_start, end: data_end },
        },
    )
}

/// Translates every entry of a table, keeping table order: the result at
/// index `i` belongs to logical block `i`.
pub fn translate_all(entries: &[u32], block_size: u32) -> (result: Result<
    Vec<BlockRegions>,
    DecodeError,
>)
    ensures
        table_translation_of(entries@, block_size) is Ok ==> result is Ok && result->Ok_0@
            == table_translation_of(entries@, block_size)->Ok_0,
        table_translation_of(entries@, block_size) is Err ==> result is Err && result->Err_0
            == table_translation_of(entries@, block_size)->Err_0,
{
    let mut blocks: Vec<BlockRegions> = Vec::new();
    let mut i: usize = 0;
    while i < entries.len()
        invariant
            i <= entries.len(),
            i > 0 ==> block_size != 0,
            blocks@ == Seq::new(i as nat, |k: int| regions_of(entries@[k], block_size)),
        decreases entries.len() - i,
    {
        match translate(entries[i], block_size) {
            Err(error) => {
                return Err(error);
            },
            Ok(regions) => {
                blocks.push(regions);
                i += 1;
                assert(blocks@ =~= Seq::new(
                    i as nat,
                    |k: int| regions_of(entries@[k], block_size),
                ));
            },
        }
    }
    Ok(blocks)
}

/// The sentinel entry translates to an unallocated block, which has no byte
/// range, for every block size that translation accepts.
pub proof fn lemma_sentinel_is_unallocated(block_size: u32)
    requires
        block_size > 0,
    ensures
        translation_of(0xFFFF_FFFFu32, block_size) == Ok::<BlockRegions, DecodeError>(
            BlockRegions::Unallocated,
        ),
{
}

/// An entry that holds sector number `entry` translates to the bitmap range
/// `[512 * entry, 512 * entry + 512)` and the data range
/// `[512 * entry + 512, 512 * entry + 512 + block_size)`. Neither range is
/// empty, the data starts where the bitmap ends, and so the two do not
/// overlap.
pub proof fn lemma_allocated_regions(entry: u32, block_size: u32)
    requires
        entry != 0xFFFF_FFFFu32,
        block_size > 0,
    ensures
        translation_of(entry, block_size) == Ok::<BlockRegions, DecodeError>(
            regions_of(entry, block_size),
        ),
        regions_of(entry, block_size) is Allocated,
        regions_of(entry, block_size)->bitmap_range.start == 512 * entry,
        regions_of(entry, block_size)->bitmap_range.end == 512 * entry + 512,
        regions_of(entry, block_size)->data_range.start == 512 * entry + 512,
        regions_of(entry, block_size)->data_range.end == 512 * entry + 512 + block_size,
        regions_of(entry, block_size)->bitmap_range.start < regions_of(
            entry,
            block_size,
        )->bitmap_range.end,
        regions_of(entry, block_size)->bitmap_range.end == regions_of(
            entry,
            block_size,
        )->data_range.start,
        regions_of(entry, block_size)->data_range.start < regions_of(
            entry,
            block_size,
        )->data_range.end,
{
}

} // verus!
