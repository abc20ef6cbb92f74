//! The superblock: the record at block 0 that describes the layout.

use crate::codec::{le_u32, lemma_u32_at_concat, push_u32, read_u32, u32_at};
use vstd::prelude::*;

verus! {

/// The identifier that marks a formatted device.
pub const MAGIC: u32 = 0x504B4653;

/// The encoded size of a superblock, in bytes.
pub const SUPERBLOCK_SIZE: usize = 20;

/// The fewest blocks a partition may have.
pub const MIN_TOTAL_BLOCKS: u32 = 64;

/// The most blocks a partition may have.
pub const MAX_TOTAL_BLOCKS: u32 = 0xFFFF_FFFF;

/// Inode records that fit in one block.
pub const INODES_PER_BLOCK: u32 = 32;

/// The layout of a formatted device.
///
/// Block 0 holds this record. The inode table follows from block 1 up to
/// `bitmap_start_block`. There the block bitmap begins, one byte per block,
/// followed by the inode bitmap, one byte per inode slot. The data region
/// runs from `data_start_block` to `total_block`.
#[derive(Debug, Clone, Copy, PartialEq, Eq, Structural)]
pub struct SuperBlock {
    /// Identifies the format.
    pub magic: u32,
    /// The size of each block in bytes.
    pub block_size: u32,
    /// The block where the block bitmap begins.
    pub bitmap_start_block: u32,
    /// The first block of the data region.
    pub data_start_block: u32,
    /// The number of blocks in the partition.
    pub total_block: u32,
}

/// The number of blocks that hold `n` bytes.
pub open spec fn blocks_for(n: int) -> int {
    (n + 1023) / 1024
}

/// Whether a partition of `partition_size` bytes can be formatted: its
/// block count fits a `u32`, and the inode count of its layout fits the
/// machine's `usize`.
pub open spec fn valid_partition_size(partition_size: u64) -> bool {
    &&& MIN_TOTAL_BLOCKS <= partition_size / 1024 <= MAX_TOTAL_BLOCKS
    &&& fits_usize(layout((partition_size / 1024) as u32))
}

/// Whether the inode count `(data_start_block - 1) * INODES_PER_BLOCK`, and
/// so every bitmap length, fits the machine's `usize`.
pub open spec fn fits_usize(sb: SuperBlock) -> bool {
    (sb.data_start_block - 1) * INODES_PER_BLOCK <= usize::MAX
}

/// The number of inode slots of the table that ends at `bitmap_start_block`.
pub open spec fn inode_slots_before(bitmap_start_block: int) -> int {
    (bitmap_start_block - 1) * INODES_PER_BLOCK
}

/// The layout of a partition of `total` blocks.
pub open spec fn layout(total: u32) -> SuperBlock {
    let bitmap_start = 1 + (total + 31) / 32;
    let inode_bitmap_start = bitmap_start + blocks_for(total as int);
    let data_start = inode_bitmap_start + blocks_for(inode_slots_before(bitmap_start));
    SuperBlock {
        magic: MAGIC,
        block_size: 1024,
        bitmap_start_block: bitmap_start as u32,
        data_start_block: data_start as u32,
        total_block: total,
    }
}

/// Whether `sb` is the layout that formatting gives its partition size.
pub open spec fn is_layout(sb: SuperBlock) -> bool {
    &&& MIN_TOTAL_BLOCKS <= sb.total_block <= MAX_TOTAL_BLOCKS
    &&& sb == layout(sb.total_block)
}

/// Whether `sb` describes a usable layout: 1024-byte blocks, an inode table
/// from block 1 up to the bitmaps, `bitmap_start_block < data_start_block <=
/// total_block`, both bitmaps fitting before the data region, and no more
/// inode slots than 32-bit inode ids can name.
pub open spec fn geometry_ok(sb: SuperBlock) -> bool {
    &&& sb.block_size == 1024
    &&& 1 <= sb.bitmap_start_block
    &&& sb.bitmap_start_block < sb.data_start_block <= sb.total_block
    &&& sb.inode_bitmap_start() + blocks_for(sb.inode_slots()) <= sb.data_start_block
    &&& sb.inode_slots() <= 0x1_0000_0000
    &&& fits_usize(sb)
}

/// The bytes of a superblock record.
pub open spec fn superblock_bytes(sb: SuperBlock) -> Seq<u8> {
    le_u32(sb.magic) + le_u32(sb.block_size) + le_u32(sb.bitmap_start_block) + le_u32(
        sb.data_start_block,
    ) + le_u32(sb.total_block)
}

/// The superblock record at the start of `b`, if `b` is long enough.
pub open spec fn decode_superblock(b: Seq<u8>) -> Option<SuperBlock> {
    if b.len() < SUPERBLOCK_SIZE {
        None
    } else {
        Some(
            SuperBlock {
                magic: u32_at(b, 0),
                block_size: u32_at(b, 4),
                bitmap_start_block: u32_at(b, 8),
                data_start_block: u32_at(b, 12),
                total_block: u32_at(b, 16),
            },
        )
    }
}

/// Facts about a layout that the engine's address arithmetic relies on.
pub proof fn lemma_layout_bounds(total: u32)
    requires
        MIN_TOTAL_BLOCKS <= total <= MAX_TOTAL_BLOCKS,
    ensures
        is_layout(layout(total)),
        fits_usize(layout(total)) ==> geometry_ok(layout(total)),
        layout(total).data_start_block < total,
{
    let bitmap_start = 1 + (total + 31) / 32;
    let slots = inode_slots_before(bitmap_start);
    assert(slots == ((total + 31) / 32) * 32);
    assert(slots <= total + 31);
    assert(slots >= total);
    assert(blocks_for(total as int) >= 1);
    assert(blocks_for(slots) >= 1);
    assert(blocks_for(slots) <= blocks_for(total as int) + 1);
}

impl SuperBlock {
    /// The layout for a partition of `partition_size` bytes.
    pub fn new(partition_size: u64) -> (r: SuperBlock)
        requires
            valid_partition_size(partition_size),
        ensures
            r == layout((partition_size / 1024) as u32),
            r.magic == MAGIC,
            r.block_size == 1024,
            r.total_block == partition_size / 1024,
            r.bitmap_start_block < r.data_start_block < r.total_block,
    {
        SuperBlock::for_blocks((partition_size / 1024) as u32)
    }

    /// The layout for a partition of `total` blocks.
    pub fn for_blocks(total: u32) -> (r: SuperBlock)
        requires
            MIN_TOTAL_BLOCKS <= total <= MAX_TOTAL_BLOCKS,
        ensures
            r == layout(total),
            r.bitmap_start_block < r.data_start_block < r.total_block,
    {
        proof {
            lemma_layout_bounds(total);
        }
        let t: u64 = total as u64;
        let bitmap_start: u64 = 1 + (t + 31) / 32;
        let inode_bitmap_start: u64 = bitmap_start + (t + 1023) / 1024;
        let slots: u64 = (bitmap_start - 1) * INODES_PER_BLOCK as u64;
        let data_start: u64 = inode_bitmap_start + (slots + 1023) / 1024;
        SuperBlock {
            magic: MAGIC,
            block_size: 1024,
            bitmap_start_block: bitmap_start as u32,
            data_start_block: data_start as u32,
            total_block: total,
        }
    }

    /// Whether the layout this record describes is usable.
    pub fn has_valid_geometry(&self) -> (r: bool)
        ensures
            r == geometry_ok(*self),
    {
        let bs: u64 = self.bitmap_start_block as u64;
        let ds: u64 = self.data_start_block as u64;
        let total: u64 = self.total_block as u64;
        if self.block_size != 1024 || bs < 1 || bs >= ds || ds > total {
            return false;
        }
        let slots: u64 = (bs - 1) * 32;
        if slots > 0x1_0000_0000 {
            return false;
        }
        let inode_bitmap_start: u64 = bs + (total + 1023) / 1024;
        if inode_bitmap_start + (slots + 1023) / 1024 > ds {
            return false;
        }
        (ds - 1) * 32 <= usize::MAX as u64
    }

    /// The number of inode slots in the inode table.
    pub open spec fn inode_slots(&self) -> int {
        inode_slots_before(self.bitmap_start_block as int)
    }

    /// The block where the inode bitmap begins.
    pub open spec fn inode_bitmap_start(&self) -> int {
        self.bitmap_start_block + blocks_for(self.total_block as int)
    }

    /// The record as bytes, fields in order, each least significant byte first.
    pub fn as_bytes(&self) -> (r: Vec<u8>)
        ensures
            r@ == superblock_bytes(*self),
    {
        let mut out: Vec<u8> = Vec::new();
        push_u32(&mut out, self.magic);
        push_u32(&mut out, self.block_size);
        push_u32(&mut out, self.bitmap_start_block);
        push_u32(&mut out, self.data_start_block);
        push_u32(&mut out, self.total_block);
        assert(out@ =~= superblock_bytes(*self));
        out
    }

    /// The record at the start of `buf`; `None` when `buf` is too short.
    pub fn from_bytes(buf: &[u8]) -> (r: Option<SuperBlock>)
        ensures
            r == decode_superblock(buf@),
    {
        if buf.len() < SUPERBLOCK_SIZE {
            return None;
        }
        Some(
            SuperBlock {
                magic: read_u32(buf, 0),
                block_size: read_u32(buf, 4),
                bitmap_start_block: read_u32(buf, 8),
                data_start_block: read_u32(buf, 12),
                total_block: read_u32(buf, 16),
            },
        )
    }
}

/// Decoding the bytes of a superblock gives back the same superblock.
pub proof fn lemma_superblock_round_trip(sb: SuperBlock)
    ensures
        decode_superblock(superblock_bytes(sb)) == Some(sb),
{
    let e = Seq::<u8>::empty();
    let b = superblock_bytes(sb);
    let (a0, a1, a2, a3, a4) = (
        le_u32(sb.magic),
        le_u32(sb.block_size),
        le_u32(sb.bitmap_start_block),
        le_u32(sb.data_start_block),
        le_u32(sb.total_block),
    );
    lemma_u32_at_concat(e, sb.magic, a1 + a2 + a3 + a4);
    assert(e + a0 + (a1 + a2 + a3 + a4) =~= b);
    lemma_u32_at_concat(a0, sb.block_size, a2 + a3 + a4);
    assert(a0 + a1 + (a2 + a3 + a4) =~= b);
    lemma_u32_at_concat(a0 + a1, sb.bitmap_start_block, a3 + a4);
    assert(a0 + a1 + a2 + (a3 + a4) =~= b);
    lemma_u32_at_concat(a0 + a1 + a2, sb.data_start_block, a4);
    assert(a0 + a1 + a2 + a3 + a4 =~= b);
    lemma_u32_at_concat(a0 + a1 + a2 + a3, sb.total_block, e);
    assert(a0 + a1 + a2 + a3 + a4 + e =~= b);
}

} // verus!
