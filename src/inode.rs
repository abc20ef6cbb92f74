//! Inode records and where they live on disk.

use crate::codec::{
    le_u32, le_u64, lemma_u32_at_concat, lemma_u64_at_concat, push_u32, push_u64, push_zeros,
    read_u32, read_u64, u32_at, u64_at, zeros,
};
use crate::superblock::SuperBlock;
use vstd::prelude::*;

verus! {

/// The encoded size of an inode record, in bytes.
pub const INODE_SIZE: usize = 32;

/// What an inode describes.
#[derive(Debug, Clone, Copy, PartialEq, Eq, Structural)]
pub enum FileType {
    /// A regular file.
    Regular,
    /// A directory.
    Directory,
    /// A device file.
    Device,
}

/// A file or directory: its type, its single data block and its length.
#[derive(Debug, Clone, Copy, PartialEq, Eq, Structural)]
pub struct Inode {
    /// Whether the slot is in use.
    pub is_used: bool,
    /// The inode's own id.
    pub inode_id: u32,
    /// The file type.
    pub file_type: FileType,
    /// The data block that holds the payload.
    pub head_block: u32,
    /// Bytes of valid payload; for a directory, bytes of entries written.
    pub file_length: u64,
}

/// The byte that stands for a file type on disk.
pub open spec fn file_type_code(t: FileType) -> u8 {
    match t {
        FileType::Regular => 0,
        FileType::Directory => 1,
        FileType::Device => 2,
    }
}

/// The file type a byte stands for, if any.
pub open spec fn file_type_of(b: u8) -> Option<FileType> {
    if b == 0 {
        Some(FileType::Regular)
    } else if b == 1 {
        Some(FileType::Directory)
    } else if b == 2 {
        Some(FileType::Device)
    } else {
        None
    }
}

/// The bytes of an inode record: the used flag, the id, the type, the head
/// block and the length, each in a field of its own, padded to 32 bytes.
pub open spec fn inode_bytes(i: Inode) -> Seq<u8> {
    seq![if i.is_used { 1u8 } else { 0u8 }, 0u8, 0u8, 0u8] + le_u32(i.inode_id) + seq![
        file_type_code(i.file_type),
        0u8,
        0u8,
        0u8,
    ] + le_u32(i.head_block) + le_u64(i.file_length) + zeros(8)
}

/// The inode record at the start of `b`; `None` when `b` is too short or
/// its type byte stands for no file type.
pub open spec fn decode_inode(b: Seq<u8>) -> Option<Inode> {
    if b.len() < INODE_SIZE {
        None
    } else {
        match file_type_of(b[8]) {
            Some(t) => Some(
                Inode {
                    is_used: b[0] != 0,
                    inode_id: u32_at(b, 4),
                    file_type: t,
                    head_block: u32_at(b, 12),
                    file_length: u64_at(b, 16),
                },
            ),
            None => None,
        }
    }
}

/// The block and the byte offset in it where the record of inode `id` lies,
/// for blocks of `block_size` bytes. The table begins at block 1.
pub open spec fn inode_location(id: u32, block_size: u32) -> (u64, usize) {
    let per_block = block_size / INODE_SIZE as u32;
    ((1 + id / per_block) as u64, ((id % per_block) * INODE_SIZE) as usize)
}

impl FileType {
    fn code(&self) -> (r: u8)
        ensures
            r == file_type_code(*self),
    {
        match self {
            FileType::Regular => 0,
            FileType::Directory => 1,
            FileType::Device => 2,
        }
    }

    fn from_code(b: u8) -> (r: Option<FileType>)
        ensures
            r == file_type_of(b),
    {
        if b == 0 {
            Some(FileType::Regular)
        } else if b == 1 {
            Some(FileType::Directory)
        } else if b == 2 {
            Some(FileType::Device)
        } else {
            None
        }
    }
}

impl Inode {
    /// The record as bytes.
    pub fn as_bytes(&self) -> (r: Vec<u8>)
        ensures
            r@ == inode_bytes(*self),
    {
        let mut out: Vec<u8> = Vec::new();
        out.push(if self.is_used { 1u8 } else { 0u8 });
        push_zeros(&mut out, 3);
        push_u32(&mut out, self.inode_id);
        out.push(self.file_type.code());
        push_zeros(&mut out, 3);
        push_u32(&mut out, self.head_block);
        push_u64(&mut out, self.file_length);
        push_zeros(&mut out, 8);
        assert(out@ =~= inode_bytes(*self));
        out
    }

    /// The record at the start of `buf`; `None` when `buf` is too short or
    /// holds no valid file type.
    pub fn from_bytes(buf: &[u8]) -> (r: Option<Inode>)
        ensures
            r == decode_inode(buf@),
    {
        if buf.len() < INODE_SIZE {
            return None;
        }
        match FileType::from_code(buf[8]) {
            Some(t) => Some(
                Inode {
                    is_used: buf[0] != 0,
                    inode_id: read_u32(buf, 4),
                    file_type: t,
                    head_block: read_u32(buf, 12),
                    file_length: read_u64(buf, 16),
                },
            ),
            None => None,
        }
    }

    /// The block and the byte offset in it where inode `inode_id` is stored.
    pub fn locate(inode_id: u32, super_block: &SuperBlock) -> (r: (u64, usize))
        requires
            super_block.block_size >= INODE_SIZE,
        ensures
            r == inode_location(inode_id, super_block.block_size),
    {
        let inodes_per_block: u32 = super_block.block_size / INODE_SIZE as u32;
        proof {
            lemma_per_block_positive(super_block.block_size);
        }
        let inode_start_block: u64 = 1;
        let block_idx: u64 = inode_start_block + (inode_id / inodes_per_block) as u64;
        let offset: usize = (inode_id % inodes_per_block) as usize * INODE_SIZE;
        (block_idx, offset)
    }
}

proof fn lemma_per_block_positive(block_size: u32)
    requires
        block_size >= INODE_SIZE,
    ensures
        block_size / INODE_SIZE as u32 > 0,
{
    assert(block_size / 32u32 >= 1) by (nonlinear_arith)
        requires
            block_size >= 32,
    ;
}

/// Decoding the bytes of an inode gives back the same inode.
pub proof fn lemma_inode_round_trip(i: Inode)
    ensures
        decode_inode(inode_bytes(i)) == Some(i),
{
    let b = inode_bytes(i);
    let h = seq![if i.is_used { 1u8 } else { 0u8 }, 0u8, 0u8, 0u8];
    let t = seq![file_type_code(i.file_type), 0u8, 0u8, 0u8];
    let (id, hb, len) = (le_u32(i.inode_id), le_u32(i.head_block), le_u64(i.file_length));
    assert(b.len() == 32);
    assert(b[0] == h[0]);
    assert(b[8] == t[0]);
    lemma_u32_at_concat(h, i.inode_id, t + hb + len + zeros(8));
    assert(h + id + (t + hb + len + zeros(8)) =~= b);
    lemma_u32_at_concat(h + id + t, i.head_block, len + zeros(8));
    assert(h + id + t + hb + (len + zeros(8)) =~= b);
    lemma_u64_at_concat(h + id + t + hb, i.file_length, zeros(8));
    assert(h + id + t + hb + len + zeros(8) =~= b);
}

/// The inode one block's worth of records further along lies at the same
/// offset of the next block.
pub proof fn lemma_locate_next_block(id: u32, block_size: u32)
    requires
        block_size >= INODE_SIZE,
        id as int + (block_size / INODE_SIZE as u32) as int <= u32::MAX,
    ensures
        ({
            let next = (id + block_size / INODE_SIZE as u32) as u32;
            &&& inode_location(next, block_size).0 == inode_location(id, block_size).0 + 1
            &&& inode_location(next, block_size).1 == inode_location(id, block_size).1
        }),
{
    let per = block_size / INODE_SIZE as u32;
    let next = (id + per) as u32;
    lemma_per_block_positive(block_size);
    let q = (id / per) as int;
    let m = (id % per) as int;
    vstd::arithmetic::div_mod::lemma_fundamental_div_mod(id as int, per as int);
    vstd::arithmetic::div_mod::lemma_mod_bound(id as int, per as int);
    assert((q + 1) * per == q * per + per) by (nonlinear_arith);
    assert(per * q == q * per) by (nonlinear_arith);
    vstd::arithmetic::div_mod::lemma_fundamental_div_mod_converse(
        next as int,
        per as int,
        (id / per) as int + 1,
        (id % per) as int,
    );
}

} // verus!
