//! The filesystem engine: mounting, allocation, files and directories.

use crate::bitmap::{Bitmap, BlockBitmap};
use crate::codec::u32_at;
use crate::device::{byte_address, bytes_at, written, BlockDevice, DeviceError, BLOCK_SIZE};
use crate::direntry::{convert_name, dir_entry_at, DirEntry, DIR_ENTRY_SIZE};
use crate::inode::{inode_bytes, FileType, Inode, INODE_SIZE};
use crate::model::{
    after_alloc, alloc_plan, all_used, dot, dot_dot, entry_target, first_free, formatted,
    bitmaps_stored, image_blocks, image_inodes, with_reserved, image_superblock, inode_addr, lemma_first_free_unique,
    lemma_inode_place, lemma_layout_regions, marked, mountable, new_inode, stored_inode, synced, with_entry,
    with_inode, with_new_directory, FsState, initial_blocks, initial_inodes,
};
use crate::superblock::{
    geometry_ok, layout, lemma_layout_bounds, valid_partition_size, SuperBlock, MAGIC,
    MAX_TOTAL_BLOCKS, MIN_TOTAL_BLOCKS, SUPERBLOCK_SIZE,
};
use vstd::prelude::*;
use vstd::string::StringSliceAdditionalSpecFns;

verus! {

/// Why a filesystem operation failed.
#[derive(Debug, Clone, Copy, PartialEq, Eq, Structural)]
pub enum FsError {
    /// Block 0 does not hold a superblock of this format.
    InvalidSuperblock,
    /// The partition is too small or too large to format.
    InvalidPartitionSize,
    /// Every block is in use.
    NoFreeBlock,
    /// Every inode slot is in use.
    NoFreeInode,
    /// The directory to add an entry to does not exist.
    ParentNotFound,
    /// The inode does not exist.
    InodeNotFound,
    /// The directory's data block has no room for another entry.
    DirectoryFull,
    /// The device failed.
    Device(DeviceError),
}

/// A mounted filesystem: the device, its superblock, and in-memory copies of
/// the block and inode bitmaps.
pub struct FileSystem<B: BlockDevice> {
    /// The device.
    pub block_device: B,
    /// The layout, as read from block 0.
    pub super_block: SuperBlock,
    /// One byte per block: nonzero when the block is in use.
    pub block_bitmap: Vec<u8>,
    /// One byte per inode slot: nonzero when the inode is in use.
    pub inode_bitmap: Vec<u8>,
}

impl<B: BlockDevice> FileSystem<B> {
    /// The device's bytes and the two bitmaps.
    pub open spec fn state(&self) -> FsState {
        FsState {
            disk: self.block_device.contents(),
            blocks: self.block_bitmap@,
            inodes: self.inode_bitmap@,
        }
    }

    /// Whether the device promises that every access within its contents
    /// succeeds.
    pub open spec fn reliable(&self) -> bool {
        self.block_device.reliable()
    }

    /// The superblock has the magic and a usable layout, the bitmaps cover
    /// every block and every inode slot, and every block before the data
    /// region is in use.
    pub open spec fn wf(&self) -> bool {
        &&& self.super_block.magic == MAGIC
        &&& geometry_ok(self.super_block)
        &&& self.block_bitmap@.len() == self.super_block.total_block
        &&& self.inode_bitmap@.len() == self.super_block.inode_slots()
        &&& forall|b: int| 0 <= b < self.super_block.data_start_block ==> self.block_bitmap@[b] != 0
    }

    /// Mounts the filesystem on `bd`: reads the superblock, checks its magic
    /// and layout, reads both bitmaps, and marks every block before the data
    /// region used in the in-memory block bitmap. Fails with
    /// `InvalidSuperblock` exactly when block 0 does not hold a superblock
    /// with the magic and a usable layout.
    pub fn mount(bd: B) -> (r: Result<FileSystem<B>, FsError>)
        ensures
            mountable(bd.contents()) ==> r is Ok || r matches Err(FsError::Device(_)),
            image_superblock(bd.contents()) matches Some(sb) && bd.reliable() && mountable(
                bd.contents(),
            ) && bitmaps_stored(bd.contents(), sb) ==> r is Ok,
            match r {
                Ok(fs) => {
                    &&& fs.wf()
                    &&& mountable(bd.contents())
                    &&& image_superblock(bd.contents()) == Some(fs.super_block)
                    &&& fs.block_device.contents() == bd.contents()
                    &&& fs.block_bitmap@ == with_reserved(
                        image_blocks(bd.contents(), fs.super_block),
                        fs.super_block.data_start_block as int,
                    )
                    &&& fs.inode_bitmap@ == image_inodes(bd.contents(), fs.super_block)
                },
                Err(FsError::Device(_)) => true,
                Err(e) => e == FsError::InvalidSuperblock && !mountable(bd.contents()),
            },
    {
        let ghost disk = bd.contents();
        let mut device = bd;
        let mut buf: Vec<u8> = vec![0u8; SUPERBLOCK_SIZE];
        match device.read_block(0, 0, buf.as_mut_slice()) {
            Ok(()) => {},
            Err(e) => {
                return Err(FsError::Device(e));
            },
        }
        let super_block = match SuperBlock::from_bytes(buf.as_slice()) {
            Some(sb) => sb,
            None => {
                return Err(FsError::InvalidSuperblock);
            },
        };
        if super_block.magic != MAGIC || !super_block.has_valid_geometry() {
            return Err(FsError::InvalidSuperblock);
        }
        let mut block_bitmap: Vec<u8> = vec![0u8; super_block.total_block as usize];
        match device.read_block(super_block.bitmap_start_block, 0, block_bitmap.as_mut_slice()) {
            Ok(()) => {},
            Err(e) => {
                return Err(FsError::Device(e));
            },
        }
        let slots: u64 = (super_block.bitmap_start_block as u64 - 1) * 32;
        let inode_bitmap_start: u32 = (super_block.bitmap_start_block as u64 + (
        super_block.total_block as u64 + 1023) / 1024) as u32;
        let mut inode_bitmap: Vec<u8> = vec![0u8; slots as usize];
        match device.read_block(inode_bitmap_start, 0, inode_bitmap.as_mut_slice()) {
            Ok(()) => {},
            Err(e) => {
                return Err(FsError::Device(e));
            },
        }
        let ghost stored_blocks = block_bitmap@;
        let data_start: usize = super_block.data_start_block as usize;
        let mut b: usize = 0;
        while b < data_start
            invariant
                b <= data_start,
                data_start == super_block.data_start_block,
                data_start <= block_bitmap@.len(),
                block_bitmap@.len() == stored_blocks.len(),
                forall|k: int|
                    0 <= k < block_bitmap@.len() ==> block_bitmap@[k] == if k < b {
                        1u8
                    } else {
                        stored_blocks[k]
                    },
            decreases data_start - b,
        {
            Bitmap::set(&mut block_bitmap, b, true);
            b = b + 1;
        }
        proof {
            assert(block_bitmap@ =~= with_reserved(stored_blocks, data_start as int));
        }
        Ok(FileSystem { block_device: device, super_block, block_bitmap, inode_bitmap })
    }

    /// Takes the lowest free block and the lowest free inode slot, and makes
    /// an empty inode of `file_type` whose payload lives in that block.
    /// Every block of the partition is searched; since all blocks before the
    /// data region stay marked, the block is always a data block. Nothing
    /// changes when either search comes up empty.
    pub fn alloc_inode(&mut self, file_type: FileType) -> (r: Result<(Inode, u32), FsError>)
        requires
            old(self).wf(),
        ensures
            final(self).wf(),
            final(self).super_block == old(self).super_block,
            final(self).reliable() == old(self).reliable(),
            match r {
                Ok((inode, block)) => {
                    &&& alloc_plan(old(self).state()) == Ok::<(u32, u32), FsError>((block, inode.inode_id))
                    &&& inode == new_inode(inode.inode_id, file_type, block)
                    &&& final(self).state() == after_alloc(old(self).state(), block, inode.inode_id)
                    &&& old(self).super_block.data_start_block <= block
                },
                Err(e) => {
                    &&& alloc_plan(old(self).state()) == Err::<(u32, u32), FsError>(e)
                    &&& final(self).state() == old(self).state()
                },
            },
    {
        let nblocks: usize = self.block_bitmap.len();
        let block: u32 = match self.block_bitmap.allocate(nblocks) {
            Some(i) => i as u32,
            None => {
                return Err(FsError::NoFreeBlock);
            },
        };
        let ninodes: usize = self.inode_bitmap.len();
        let id: u32 = match self.inode_bitmap.allocate(ninodes) {
            Some(i) => i as u32,
            None => {
                self.block_bitmap.free(block as usize);
                proof {
                    assert(self.block_bitmap@ =~= old(self).block_bitmap@);
                    assert(!all_used(old(self).block_bitmap@)) by {
                        assert(old(self).block_bitmap@[block as int] == 0);
                    }
                }
                return Err(FsError::NoFreeInode);
            },
        };
        proof {
            lemma_first_free_unique(old(self).block_bitmap@, block as int);
            lemma_first_free_unique(old(self).inode_bitmap@, id as int);
            assert(!all_used(old(self).block_bitmap@)) by {
                assert(old(self).block_bitmap@[block as int] == 0);
            }
            assert(!all_used(old(self).inode_bitmap@)) by {
                assert(old(self).inode_bitmap@[id as int] == 0);
            }
        }
        let inode = Inode {
            is_used: true,
            inode_id: id,
            file_type,
            head_block: block,
            file_length: 0,
        };
        Ok((inode, block))
    }

    /// Writes the record `i` to the table slot of inode `id`.
    fn write_inode(&mut self, id: u32, i: &Inode) -> (r: Result<(), DeviceError>)
        requires
            old(self).wf(),
        ensures
            final(self).wf(),
            final(self).super_block == old(self).super_block,
            final(self).reliable() == old(self).reliable(),
            final(self).block_bitmap@ == old(self).block_bitmap@,
            final(self).inode_bitmap@ == old(self).inode_bitmap@,
            old(self).reliable() && inode_addr(old(self).super_block, id) + INODE_SIZE <= old(
                self,
            ).state().disk.len() ==> r is Ok,
            r is Ok ==> final(self).state().disk == written(
                old(self).state().disk,
                inode_addr(old(self).super_block, id),
                inode_bytes(*i),
            ),
    {
        let (block_idx, offset) = Inode::locate(id, &self.super_block);
        proof {
            lemma_inode_place(self.super_block, id);
        }
        let bytes = i.as_bytes();
        self.block_device.write_block(block_idx as u32, offset as u32, bytes.as_slice())
    }

    /// Reads inode `id` when the inode bitmap marks it used.
    fn read_inode(&mut self, id: u32) -> (r: Result<Option<Inode>, DeviceError>)
        requires
            old(self).wf(),
        ensures
            final(self).wf(),
            final(self).super_block == old(self).super_block,
            final(self).reliable() == old(self).reliable(),
            final(self).state() == old(self).state(),
            r matches Ok(x) ==> x == stored_inode(old(self).super_block, old(self).state(), id),
            !marked(old(self).inode_bitmap@, id as int) ==> r == Ok::<Option<Inode>, DeviceError>(None),
            old(self).reliable() && inode_addr(old(self).super_block, id) + INODE_SIZE <= old(
                self,
            ).state().disk.len() ==> r is Ok,
    {
        if id as usize >= self.inode_bitmap.len() || !self.inode_bitmap.is_used(id as usize) {
            return Ok(None);
        }
        let mut buf: Vec<u8> = vec![0u8; INODE_SIZE];
        let (block_idx, offset) = Inode::locate(id, &self.super_block);
        proof {
            lemma_inode_place(self.super_block, id);
        }
        match self.block_device.read_block(block_idx as u32, offset as u32, buf.as_mut_slice()) {
            Ok(()) => {},
            Err(e) => {
                return Err(e);
            },
        }
        Ok(Inode::from_bytes(buf.as_slice()))
    }

    /// Inode `id`, if the inode bitmap marks it used and its record can be
    /// read and decoded.
    pub fn get_inode(&mut self, inode_id: u32) -> (r: Option<Inode>)
        requires
            old(self).wf(),
        ensures
            final(self).wf(),
            final(self).super_block == old(self).super_block,
            final(self).reliable() == old(self).reliable(),
            final(self).state() == old(self).state(),
            r is Some ==> r == stored_inode(old(self).super_block, old(self).state(), inode_id),
            stored_inode(old(self).super_block, old(self).state(), inode_id) is None ==> r is None,
            old(self).reliable() ==> r == stored_inode(
                old(self).super_block,
                old(self).state(),
                inode_id,
            ),
            !marked(old(self).inode_bitmap@, inode_id as int) ==> r is None,
    {
        match self.read_inode(inode_id) {
            Ok(x) => x,
            Err(_) => None,
        }
    }

    /// Appends an entry naming `inode_id` as `name` to the directory
    /// `parent_inode_id`: the entry is written at byte `file_length` of the
    /// directory's head block, then the directory's length grows by one entry
    /// and its inode is written back. Fails when the parent does not exist or
    /// its block has no room left.
    pub fn add_dir_entry(&mut self, parent_inode_id: u32, name: &str, inode_id: u32) -> (r: Result<
        (),
        FsError,
    >)
        requires
            old(self).wf(),
        ensures
            final(self).wf(),
            final(self).super_block == old(self).super_block,
            final(self).reliable() == old(self).reliable(),
            final(self).block_bitmap@ == old(self).block_bitmap@,
            final(self).inode_bitmap@ == old(self).inode_bitmap@,
            !marked(old(self).inode_bitmap@, parent_inode_id as int) ==> r == Err::<(), FsError>(
                FsError::ParentNotFound,
            ),
            entry_target(old(self).super_block, old(self).state(), parent_inode_id) is Err
                ==> final(self).state() == old(self).state(),
            entry_target(old(self).super_block, old(self).state(), parent_inode_id) matches Ok(p)
                && old(self).reliable() && byte_address(p.head_block, p.file_length as u32) + DIR_ENTRY_SIZE
                <= old(self).state().disk.len() ==> r is Ok,
            match r {
                Ok(()) => entry_target(old(self).super_block, old(self).state(), parent_inode_id) matches Ok(p)
                    && final(self).state().disk == with_entry(
                    old(self).super_block,
                    old(self).state().disk,
                    parent_inode_id,
                    p,
                    inode_id,
                    name.spec_bytes(),
                ),
                Err(FsError::Device(_)) => true,
                Err(e) => entry_target(old(self).super_block, old(self).state(), parent_inode_id)
                    == Err::<Inode, FsError>(e) && final(self).state() == old(self).state(),
            },
    {
        let mut parent = match self.read_inode(parent_inode_id) {
            Ok(Some(p)) => p,
            Ok(None) => {
                return Err(FsError::ParentNotFound);
            },
            Err(e) => {
                return Err(FsError::Device(e));
            },
        };
        if parent.file_length > (BLOCK_SIZE as usize - DIR_ENTRY_SIZE) as u64 {
            return Err(FsError::DirectoryFull);
        }
        let data_offset: u64 = parent.file_length;
        let entry = DirEntry { inode: inode_id, name: convert_name(name.as_bytes()) };
        let entry_bytes = entry.as_bytes();
        match self.block_device.write_block(parent.head_block, data_offset as u32, entry_bytes.as_slice()) {
            Ok(()) => {},
            Err(e) => {
                return Err(FsError::Device(e));
            },
        }
        parent.file_length = data_offset + DIR_ENTRY_SIZE as u64;
        match self.write_inode(parent_inode_id, &parent) {
            Ok(()) => Ok(()),
            Err(e) => Err(FsError::Device(e)),
        }
    }

    /// Creates a regular file `name` in directory `parent_inode_id`: takes a
    /// block and an inode, writes the inode to the table, then adds the entry.
    /// When adding the entry fails the inode stays allocated, unlinked.
    pub fn mkfile(&mut self, parent_inode_id: u32, name: &str) -> (r: Result<(), FsError>)
        requires
            old(self).wf(),
        ensures
            final(self).wf(),
            final(self).super_block == old(self).super_block,
            final(self).reliable() == old(self).reliable(),
            match alloc_plan(old(self).state()) {
                Err(e) => r == Err::<(), FsError>(e) && final(self).state() == old(self).state(),
                Ok((block, id)) => {
                    let sb = old(self).super_block;
                    let mid = with_inode(
                        sb,
                        after_alloc(old(self).state(), block, id),
                        new_inode(id, FileType::Regular, block),
                    );
                    &&& final(self).state().blocks == mid.blocks
                    &&& final(self).state().inodes == mid.inodes
                    &&& (entry_target(sb, mid, parent_inode_id) matches Ok(p) && old(self).reliable()
                        && inode_addr(sb, id) + INODE_SIZE <= old(self).state().disk.len()
                        && byte_address(p.head_block, p.file_length as u32) + DIR_ENTRY_SIZE
                        <= mid.disk.len() ==> r is Ok)
                    &&& match r {
                        Ok(()) => entry_target(sb, mid, parent_inode_id) matches Ok(p)
                            && final(self).state().disk == with_entry(
                            sb,
                            mid.disk,
                            parent_inode_id,
                            p,
                            id,
                            name.spec_bytes(),
                        ),
                        Err(FsError::Device(_)) => true,
                        Err(e) => entry_target(sb, mid, parent_inode_id) == Err::<Inode, FsError>(e)
                            && final(self).state().disk == mid.disk,
                    }
                },
            },
    {
        let (inode, _block) = match self.alloc_inode(FileType::Regular) {
            Ok(x) => x,
            Err(e) => {
                return Err(e);
            },
        };
        match self.write_inode(inode.inode_id, &inode) {
            Ok(()) => {},
            Err(e) => {
                return Err(FsError::Device(e));
            },
        }
        self.add_dir_entry(parent_inode_id, name, inode.inode_id)
    }

    /// Creates a directory `name` in directory `parent_inode_id`: takes a
    /// block and an inode, writes the inode, writes the "." entry (the new
    /// directory) and the ".." entry (its parent) into its block, then adds
    /// the entry to the parent. When a later step fails the inode stays
    /// allocated, unlinked.
    pub fn mkdir(&mut self, parent_inode_id: u32, name: &str) -> (r: Result<(), FsError>)
        requires
            old(self).wf(),
        ensures
            final(self).wf(),
            final(self).super_block == old(self).super_block,
            final(self).reliable() == old(self).reliable(),
            match alloc_plan(old(self).state()) {
                Err(e) => r == Err::<(), FsError>(e) && final(self).state() == old(self).state(),
                Ok((block, id)) => {
                    let sb = old(self).super_block;
                    let mid = with_new_directory(
                        sb,
                        after_alloc(old(self).state(), block, id),
                        id,
                        block,
                        parent_inode_id,
                    );
                    &&& final(self).state().blocks == mid.blocks
                    &&& final(self).state().inodes == mid.inodes
                    &&& (entry_target(sb, mid, parent_inode_id) matches Ok(p) && old(self).reliable()
                        && inode_addr(sb, id) + INODE_SIZE <= old(self).state().disk.len()
                        && byte_address(block, (2 * DIR_ENTRY_SIZE) as u32) <= old(
                        self,
                    ).state().disk.len() && byte_address(p.head_block, p.file_length as u32)
                        + DIR_ENTRY_SIZE <= mid.disk.len() ==> r is Ok)
                    &&& match r {
                        Ok(()) => entry_target(sb, mid, parent_inode_id) matches Ok(p)
                            && final(self).state().disk == with_entry(
                            sb,
                            mid.disk,
                            parent_inode_id,
                            p,
                            id,
                            name.spec_bytes(),
                        ),
                        Err(FsError::Device(_)) => true,
                        Err(e) => entry_target(sb, mid, parent_inode_id) == Err::<Inode, FsError>(e)
                            && final(self).state().disk == mid.disk,
                    }
                },
            },
    {
        let (mut inode, block) = match self.alloc_inode(FileType::Directory) {
            Ok(x) => x,
            Err(e) => {
                return Err(e);
            },
        };
        let id: u32 = inode.inode_id;
        inode.file_length = 2 * DIR_ENTRY_SIZE as u64;
        match self.write_inode(id, &inode) {
            Ok(()) => {},
            Err(e) => {
                return Err(FsError::Device(e));
            },
        }
        let dot_name: Vec<u8> = vec![46u8];
        let dot_entry = DirEntry { inode: id, name: convert_name(dot_name.as_slice()) };
        proof {
            assert(dot_name@ =~= dot());
        }
        match self.block_device.write_block(block, 0, dot_entry.as_bytes().as_slice()) {
            Ok(()) => {},
            Err(e) => {
                return Err(FsError::Device(e));
            },
        }
        let dot_dot_name: Vec<u8> = vec![46u8, 46u8];
        let dot_dot_entry = DirEntry { inode: parent_inode_id, name: convert_name(dot_dot_name.as_slice()) };
        proof {
            assert(dot_dot_name@ =~= dot_dot());
        }
        match self.block_device.write_block(
            block,
            DIR_ENTRY_SIZE as u32,
            dot_dot_entry.as_bytes().as_slice(),
        ) {
            Ok(()) => {},
            Err(e) => {
                return Err(FsError::Device(e));
            },
        }
        self.add_dir_entry(parent_inode_id, name, id)
    }

    /// The slots of directory `inode_id`: its whole head block is read and
    /// returned as `BLOCK_SIZE / DIR_ENTRY_SIZE` entries, in order. Slots not
    /// yet written come back as they lie on disk; on a zeroed block that is
    /// inode 0 with an empty name, which callers treat as unoccupied.
    pub fn ls(&mut self, inode_id: u32) -> (r: Result<Vec<DirEntry>, FsError>)
        requires
            old(self).wf(),
        ensures
            final(self).wf(),
            final(self).super_block == old(self).super_block,
            final(self).reliable() == old(self).reliable(),
            final(self).state() == old(self).state(),
            !marked(old(self).inode_bitmap@, inode_id as int) ==> r matches Err(FsError::InodeNotFound),
            stored_inode(old(self).super_block, old(self).state(), inode_id) matches Some(i)
                && old(self).reliable() && byte_address(i.head_block, 0) + BLOCK_SIZE <= old(
                self,
            ).state().disk.len() ==> r is Ok,
            match r {
                Ok(v) => stored_inode(old(self).super_block, old(self).state(), inode_id) matches Some(i)
                    && v@.len() == BLOCK_SIZE as int / DIR_ENTRY_SIZE as int
                    && forall|k: int| 0 <= k < v@.len() ==> dir_entry_at(
                        #[trigger] v@[k],
                        old(self).state().disk,
                        byte_address(i.head_block, 0) + k * DIR_ENTRY_SIZE,
                    ),
                Err(FsError::Device(_)) => true,
                Err(e) => e == FsError::InodeNotFound && stored_inode(
                    old(self).super_block,
                    old(self).state(),
                    inode_id,
                ) is None,
            },
    {
        let inode = match self.read_inode(inode_id) {
            Ok(Some(i)) => i,
            Ok(None) => {
                return Err(FsError::InodeNotFound);
            },
            Err(e) => {
                return Err(FsError::Device(e));
            },
        };
        let mut buf: Vec<u8> = vec![0u8; BLOCK_SIZE as usize];
        match self.block_device.read_block(inode.head_block, 0, buf.as_mut_slice()) {
            Ok(()) => {},
            Err(e) => {
                return Err(FsError::Device(e));
            },
        }
        let count: usize = BLOCK_SIZE as usize / DIR_ENTRY_SIZE;
        let ghost disk = self.state().disk;
        let ghost base = byte_address(inode.head_block, 0);
        let mut entries: Vec<DirEntry> = Vec::new();
        let mut k: usize = 0;
        while k < count
            invariant
                k <= count,
                count == 4,
                buf@.len() == BLOCK_SIZE,
                buf@ == bytes_at(disk, base, BLOCK_SIZE as int),
                base == byte_address(inode.head_block, 0),
                base + BLOCK_SIZE <= disk.len(),
                entries@.len() == k,
                forall|j: int| 0 <= j < k ==> dir_entry_at(
                    #[trigger] entries@[j],
                    disk,
                    base + j * DIR_ENTRY_SIZE,
                ),
            decreases count - k,
        {
            let e = DirEntry::from_bytes_at(buf.as_slice(), k * DIR_ENTRY_SIZE).unwrap();
            proof {
                let at: int = k as int * DIR_ENTRY_SIZE as int;
                assert(at + DIR_ENTRY_SIZE <= BLOCK_SIZE);
                assert(buf@ == disk.subrange(base, base + BLOCK_SIZE));
                assert forall|j: int| 0 <= j < BLOCK_SIZE implies buf@[j] == disk[base + j] by {
                    assert(buf@[j] == disk.subrange(base, base + BLOCK_SIZE)[j]);
                }
                assert(buf@[at] == disk[base + at]);
                assert(buf@[at + 1] == disk[base + at + 1]);
                assert(buf@[at + 2] == disk[base + at + 2]);
                assert(buf@[at + 3] == disk[base + at + 3]);
                assert(u32_at(buf@, at) == u32_at(disk, base + at));
                assert(buf@.subrange(at + 4, at + DIR_ENTRY_SIZE) =~= disk.subrange(
                    base + at + 4,
                    base + at + DIR_ENTRY_SIZE,
                ));
            }
            entries.push(e);
            k = k + 1;
        }
        Ok(entries)
    }

    /// Writes the superblock and both bitmaps back to the device.
    pub fn sync(&mut self) -> (r: Result<(), FsError>)
        requires
            old(self).wf(),
        ensures
            final(self).wf(),
            final(self).super_block == old(self).super_block,
            final(self).reliable() == old(self).reliable(),
            final(self).block_bitmap@ == old(self).block_bitmap@,
            final(self).inode_bitmap@ == old(self).inode_bitmap@,
            match r {
                Ok(()) => final(self).state().disk == synced(old(self).super_block, old(self).state()),
                Err(e) => e is Device,
            },
            old(self).reliable() && bitmaps_stored(old(self).state().disk, old(self).super_block)
                ==> r is Ok,
    {
        let sb_bytes = self.super_block.as_bytes();
        match self.block_device.write_block(0, 0, sb_bytes.as_slice()) {
            Ok(()) => {},
            Err(e) => {
                return Err(FsError::Device(e));
            },
        }
        match self.block_device.write_block(
            self.super_block.bitmap_start_block,
            0,
            self.block_bitmap.as_slice(),
        ) {
            Ok(()) => {},
            Err(e) => {
                return Err(FsError::Device(e));
            },
        }
        let inode_bitmap_start: u32 = (self.super_block.bitmap_start_block as u64 + (
        self.super_block.total_block as u64 + 1023) / 1024) as u32;
        match self.block_device.write_block(inode_bitmap_start, 0, self.inode_bitmap.as_slice()) {
            Ok(()) => Ok(()),
            Err(e) => Err(FsError::Device(e)),
        }
    }

    /// The inode count that the blocks before the data region could hold:
    /// `(data_start_block - 1) * block_size / INODE_SIZE`. Inode ids run
    /// below it.
    pub fn get_max_inode(&self) -> (r: usize)
        requires
            self.wf(),
        ensures
            r == (self.super_block.data_start_block - 1) * self.super_block.block_size
                / INODE_SIZE as int,
    {
        proof {
            assert(((self.super_block.data_start_block - 1) * 1024) / 32 == (
            self.super_block.data_start_block - 1) * 32) by (nonlinear_arith);
        }
        (self.super_block.data_start_block - 1) as usize * (BLOCK_SIZE as usize / INODE_SIZE)
    }
}

/// Formats `bd` as a filesystem of `partition_size` bytes: writes the
/// superblock, the root directory's inode (inode 0), the block bitmap with
/// every block up to the root's data block used, the inode bitmap with only
/// the root used, and the root's "." and ".." entries. Returns the layout.
pub fn format<B: BlockDevice>(bd: &mut B, partition_size: u64) -> (r: Result<SuperBlock, FsError>)
    ensures
        !valid_partition_size(partition_size) ==> r == Err::<SuperBlock, FsError>(
            FsError::InvalidPartitionSize,
        ) && final(bd).contents() == old(bd).contents(),
        final(bd).reliable() == old(bd).reliable(),
        old(bd).reliable() && valid_partition_size(partition_size) && byte_address(
            layout((partition_size / 1024) as u32).data_start_block,
            (2 * DIR_ENTRY_SIZE) as u32,
        ) <= old(bd).contents().len() ==> r is Ok,
        match r {
            Ok(sb) => sb == layout((partition_size / 1024) as u32) && final(bd).contents()
                == formatted(old(bd).contents(), sb),
            Err(FsError::Device(_)) => true,
            Err(e) => e == FsError::InvalidPartitionSize && !valid_partition_size(partition_size),
        },
{
    if partition_size / 1024 < MIN_TOTAL_BLOCKS as u64 || partition_size / 1024 > MAX_TOTAL_BLOCKS as u64 {
        return Err(FsError::InvalidPartitionSize);
    }
    let sb = SuperBlock::for_blocks((partition_size / 1024) as u32);
    if (sb.data_start_block as u64 - 1) * 32 > usize::MAX as u64 {
        return Err(FsError::InvalidPartitionSize);
    }
    proof {
        lemma_layout_bounds(sb.total_block);
        lemma_inode_place(sb, 0);
        lemma_layout_regions(sb.total_block);
    }
    match bd.write_block(0, 0, sb.as_bytes().as_slice()) {
        Ok(()) => {},
        Err(e) => {
            return Err(FsError::Device(e));
        },
    }
    let root = Inode {
        is_used: true,
        inode_id: 0,
        file_type: FileType::Directory,
        head_block: sb.data_start_block,
        file_length: 2 * DIR_ENTRY_SIZE as u64,
    };
    let (root_block, root_offset) = Inode::locate(0, &sb);
    match bd.write_block(root_block as u32, root_offset as u32, root.as_bytes().as_slice()) {
        Ok(()) => {},
        Err(e) => {
            return Err(FsError::Device(e));
        },
    }
    let mut blocks: Vec<u8> = vec![0u8; sb.total_block as usize];
    let mut b: usize = 0;
    while b <= sb.data_start_block as usize
        invariant
            sb.data_start_block < sb.total_block,
            b <= sb.data_start_block + 1,
            blocks@.len() == sb.total_block,
            forall|k: int|
                0 <= k < sb.total_block ==> blocks@[k] == if k < b { 1u8 } else { 0u8 },
        decreases sb.data_start_block + 1 - b,
    {
        Bitmap::set(&mut blocks, b, true);
        b = b + 1;
    }
    proof {
        assert(blocks@ =~= initial_blocks(sb));
    }
    let block_bitmap = BlockBitmap::new(blocks);
    match bd.write_block(sb.bitmap_start_block, 0, block_bitmap.as_bytes()) {
        Ok(()) => {},
        Err(e) => {
            return Err(FsError::Device(e));
        },
    }
    let mut inodes: Vec<u8> = vec![0u8; ((sb.bitmap_start_block as u64 - 1) * 32) as usize];
    Bitmap::set(&mut inodes, 0, true);
    proof {
        assert(inodes@ =~= initial_inodes(sb));
    }
    let inode_bitmap_start: u32 = (sb.bitmap_start_block as u64 + (sb.total_block as u64 + 1023)
        / 1024) as u32;
    match bd.write_block(inode_bitmap_start, 0, inodes.as_slice()) {
        Ok(()) => {},
        Err(e) => {
            return Err(FsError::Device(e));
        },
    }
    let dot_name: Vec<u8> = vec![46u8];
    let dot_dot_name: Vec<u8> = vec![46u8, 46u8];
    proof {
        assert(dot_name@ =~= dot());
        assert(dot_dot_name@ =~= dot_dot());
    }
    let dot_entry = DirEntry { inode: 0, name: convert_name(dot_name.as_slice()) };
    let dot_dot_entry = DirEntry { inode: 0, name: convert_name(dot_dot_name.as_slice()) };
    match bd.write_block(sb.data_start_block, 0, dot_entry.as_bytes().as_slice()) {
        Ok(()) => {},
        Err(e) => {
            return Err(FsError::Device(e));
        },
    }
    match bd.write_block(
        sb.data_start_block,
        DIR_ENTRY_SIZE as u32,
        dot_dot_entry.as_bytes().as_slice(),
    ) {
        Ok(()) => {},
        Err(e) => {
            return Err(FsError::Device(e));
        },
    }
    Ok(sb)
}

} // verus!
