//! The mathematical model of a filesystem image: what each byte range of the
//! device holds, what the bitmaps hold, and how the engine's operations
//! change them.

use crate::device::{
    byte_address, bytes_at, lemma_written_elsewhere, lemma_written_reads_back, written, BLOCK_SIZE,
};
use crate::direntry::{dir_entry_bytes, name_field, DIR_ENTRY_SIZE};
use crate::fs::FsError;
use crate::inode::{decode_inode, inode_bytes, inode_location, FileType, Inode, INODE_SIZE};
use crate::superblock::{
    blocks_for, decode_superblock, geometry_ok, is_layout, layout, lemma_layout_bounds,
    lemma_superblock_round_trip, superblock_bytes, valid_partition_size, SuperBlock, MAGIC,
    MAX_TOTAL_BLOCKS, MIN_TOTAL_BLOCKS, SUPERBLOCK_SIZE,
};
use vstd::prelude::*;

verus! {

/// What the engine's operations read and change: the device's bytes and the
/// in-memory block and inode bitmaps.
pub struct FsState {
    /// The device's bytes.
    pub disk: Seq<u8>,
    /// The block bitmap, one byte per block.
    pub blocks: Seq<u8>,
    /// The inode bitmap, one byte per inode slot.
    pub inodes: Seq<u8>,
}

/// Whether slot `i` of `s` exists and is used.
pub open spec fn marked(s: Seq<u8>, i: int) -> bool {
    0 <= i < s.len() && s[i] != 0
}

/// Whether `i` is the lowest free slot of `s`.
pub open spec fn first_free(s: Seq<u8>, i: int) -> bool {
    &&& 0 <= i < s.len()
    &&& s[i] == 0
    &&& forall|j: int| 0 <= j < i ==> s[j] != 0
}

/// Whether every slot of `s` is used.
pub open spec fn all_used(s: Seq<u8>) -> bool {
    forall|j: int| 0 <= j < s.len() ==> s[j] != 0
}

/// The lowest free slot of `s`, where there is one.
pub open spec fn lowest_free(s: Seq<u8>) -> int {
    choose|i: int| first_free(s, i)
}

/// The byte address of inode `id`'s record.
pub open spec fn inode_addr(sb: SuperBlock, id: u32) -> int {
    let loc = inode_location(id, sb.block_size);
    loc.0 as int * 1024 + loc.1 as int
}

/// The inode `id` as stored: `None` unless the inode bitmap marks it and its
/// record decodes.
pub open spec fn stored_inode(sb: SuperBlock, st: FsState, id: u32) -> Option<Inode> {
    let addr = inode_addr(sb, id);
    if marked(st.inodes, id as int) && addr + INODE_SIZE <= st.disk.len() {
        decode_inode(bytes_at(st.disk, addr, INODE_SIZE as int))
    } else {
        None
    }
}

/// The block and inode slot that allocation takes, or why it cannot.
pub open spec fn alloc_plan(st: FsState) -> Result<(u32, u32), FsError> {
    if all_used(st.blocks) {
        Err(FsError::NoFreeBlock)
    } else if all_used(st.inodes) {
        Err(FsError::NoFreeInode)
    } else {
        Ok((lowest_free(st.blocks) as u32, lowest_free(st.inodes) as u32))
    }
}

/// `st` with `block` and inode `id` marked used.
pub open spec fn after_alloc(st: FsState, block: u32, id: u32) -> FsState {
    FsState {
        disk: st.disk,
        blocks: st.blocks.update(block as int, 1u8),
        inodes: st.inodes.update(id as int, 1u8),
    }
}

/// A fresh inode: used, empty, with its payload in `block`.
pub open spec fn new_inode(id: u32, file_type: FileType, block: u32) -> Inode {
    Inode { is_used: true, inode_id: id, file_type, head_block: block, file_length: 0 }
}

/// `st` with inode `i`'s record written to its place in the table.
pub open spec fn with_inode(sb: SuperBlock, st: FsState, i: Inode) -> FsState {
    FsState {
        disk: written(st.disk, inode_addr(sb, i.inode_id), inode_bytes(i)),
        blocks: st.blocks,
        inodes: st.inodes,
    }
}

/// The parent directory that an entry is added to, or why it cannot be.
pub open spec fn entry_target(sb: SuperBlock, st: FsState, parent: u32) -> Result<Inode, FsError> {
    match stored_inode(sb, st, parent) {
        None => Err(FsError::ParentNotFound),
        Some(p) => if p.file_length + DIR_ENTRY_SIZE > BLOCK_SIZE {
            Err(FsError::DirectoryFull)
        } else {
            Ok(p)
        },
    }
}

/// The disk after an entry naming `child` as `name` has been appended to the
/// directory `p` (the inode `parent`): the entry goes at byte `file_length`
/// of the head block, then the grown inode is written back.
pub open spec fn with_entry(
    sb: SuperBlock,
    disk: Seq<u8>,
    parent: u32,
    p: Inode,
    child: u32,
    name: Seq<u8>,
) -> Seq<u8> {
    let grown = Inode { file_length: (p.file_length + DIR_ENTRY_SIZE) as u64, ..p };
    written(
        written(
            disk,
            byte_address(p.head_block, p.file_length as u32),
            dir_entry_bytes(child, name_field(name)),
        ),
        inode_addr(sb, parent),
        inode_bytes(grown),
    )
}

/// With 1024-byte blocks an inode's place fits the device's `u32` block and
/// offset parameters.
pub proof fn lemma_inode_place(sb: SuperBlock, id: u32)
    requires
        sb.block_size == 1024,
    ensures
        inode_location(id, sb.block_size).0 <= u32::MAX,
        inode_location(id, sb.block_size).1 + INODE_SIZE <= BLOCK_SIZE,
        byte_address(
            inode_location(id, sb.block_size).0 as u32,
            inode_location(id, sb.block_size).1 as u32,
        ) == inode_addr(sb, id),
        inode_addr(sb, id) == (1 + id / 32) * 1024 + (id % 32) * 32,
{
    assert(INODE_SIZE as u32 == 32u32);
    assert(1024u32 / 32u32 == 32u32) by (nonlinear_arith);
    assert(id / 32 <= 0x800_0000);
    assert(id % 32 < 32);
}

/// The name of a directory's entry for itself.
pub open spec fn dot() -> Seq<u8> {
    seq![46u8]
}

/// The name of a directory's entry for its parent.
pub open spec fn dot_dot() -> Seq<u8> {
    seq![46u8, 46u8]
}

/// `st` after a new directory `id` under `parent` has been laid down in
/// `block`: its inode, two entries long, and its "." and ".." entries.
pub open spec fn with_new_directory(
    sb: SuperBlock,
    st: FsState,
    id: u32,
    block: u32,
    parent: u32,
) -> FsState {
    let dir = Inode { file_length: (2 * DIR_ENTRY_SIZE) as u64, ..new_inode(id, FileType::Directory, block) };
    FsState {
        disk: written(
            written(
                written(st.disk, inode_addr(sb, id), inode_bytes(dir)),
                byte_address(block, 0),
                dir_entry_bytes(id, name_field(dot())),
            ),
            byte_address(block, DIR_ENTRY_SIZE as u32),
            dir_entry_bytes(parent, name_field(dot_dot())),
        ),
        blocks: st.blocks,
        inodes: st.inodes,
    }
}

/// The disk after the superblock and both bitmaps have been written back.
pub open spec fn synced(sb: SuperBlock, st: FsState) -> Seq<u8> {
    written(
        written(written(st.disk, 0, superblock_bytes(sb)), byte_address(sb.bitmap_start_block, 0), st.blocks),
        byte_address(sb.inode_bitmap_start() as u32, 0),
        st.inodes,
    )
}

/// The superblock that block 0 of `disk` holds, if the disk is long enough.
pub open spec fn image_superblock(disk: Seq<u8>) -> Option<SuperBlock> {
    if disk.len() >= SUPERBLOCK_SIZE {
        decode_superblock(bytes_at(disk, 0, SUPERBLOCK_SIZE as int))
    } else {
        None
    }
}

/// The block bitmap as `disk` stores it for the layout `sb`.
pub open spec fn image_blocks(disk: Seq<u8>, sb: SuperBlock) -> Seq<u8> {
    bytes_at(disk, byte_address(sb.bitmap_start_block, 0), sb.total_block as int)
}

/// The inode bitmap as `disk` stores it for the layout `sb`.
pub open spec fn image_inodes(disk: Seq<u8>, sb: SuperBlock) -> Seq<u8> {
    bytes_at(disk, byte_address(sb.inode_bitmap_start() as u32, 0), sb.inode_slots())
}

/// Whether `disk` holds a filesystem: block 0 has the magic and a usable
/// layout.
pub open spec fn mountable(disk: Seq<u8>) -> bool {
    match image_superblock(disk) {
        Some(sb) => sb.magic == MAGIC && geometry_ok(sb),
        None => false,
    }
}

/// Whether both bitmaps of the layout `sb` lie within `disk`.
pub open spec fn bitmaps_stored(disk: Seq<u8>, sb: SuperBlock) -> bool {
    &&& byte_address(sb.bitmap_start_block, 0) + sb.total_block <= disk.len()
    &&& byte_address(sb.inode_bitmap_start() as u32, 0) + sb.inode_slots() <= disk.len()
}

/// `s` with every slot below `n` marked used.
pub open spec fn with_reserved(s: Seq<u8>, n: int) -> Seq<u8> {
    Seq::new(s.len(), |i: int| if i < n { 1u8 } else { s[i] })
}

/// The root directory of a fresh filesystem: inode 0, whose "." and ".."
/// entries fill the first block of the data region.
pub open spec fn root_inode(sb: SuperBlock) -> Inode {
    Inode {
        is_used: true,
        inode_id: 0,
        file_type: FileType::Directory,
        head_block: sb.data_start_block,
        file_length: (2 * DIR_ENTRY_SIZE) as u64,
    }
}

/// The block bitmap of a fresh filesystem: every block up to and including
/// the root directory's block is used.
pub open spec fn initial_blocks(sb: SuperBlock) -> Seq<u8> {
    Seq::new(sb.total_block as nat, |i: int| if i <= sb.data_start_block { 1u8 } else { 0u8 })
}

/// The inode bitmap of a fresh filesystem: only the root inode is used.
pub open spec fn initial_inodes(sb: SuperBlock) -> Seq<u8> {
    Seq::new(sb.inode_slots() as nat, |i: int| if i == 0 { 1u8 } else { 0u8 })
}

/// `disk` after formatting with the layout `sb`: the superblock, the root
/// inode, both bitmaps, and the root's "." and ".." entries, both naming
/// the root.
pub open spec fn formatted(disk: Seq<u8>, sb: SuperBlock) -> Seq<u8> {
    let d1 = written(disk, 0, superblock_bytes(sb));
    let d2 = written(d1, inode_addr(sb, 0), inode_bytes(root_inode(sb)));
    let d3 = written(d2, byte_address(sb.bitmap_start_block, 0), initial_blocks(sb));
    let d4 = written(d3, byte_address(sb.inode_bitmap_start() as u32, 0), initial_inodes(sb));
    let d5 = written(d4, byte_address(sb.data_start_block, 0), dir_entry_bytes(0, name_field(dot())));
    written(
        d5,
        byte_address(sb.data_start_block, DIR_ENTRY_SIZE as u32),
        dir_entry_bytes(0, name_field(dot_dot())),
    )
}

/// Two lowest free slots of one array are the same slot.
pub proof fn lemma_first_free_unique(s: Seq<u8>, i: int)
    requires
        first_free(s, i),
    ensures
        lowest_free(s) == i,
{
    let k = lowest_free(s);
    assert(first_free(s, k));
    if k < i {
        assert(s[k] != 0);
    } else if i < k {
        assert(s[i] != 0);
    }
}

/// A device formatted for any valid partition size mounts, and the
/// superblock it yields is the layout of that size, with the format's magic.
/// Where the regions of a fresh layout lie: the root inode before the block
/// bitmap, the block bitmap before the inode bitmap, and the inode bitmap
/// before the data region.
pub proof fn lemma_layout_regions(total: u32)
    requires
        MIN_TOTAL_BLOCKS <= total <= MAX_TOTAL_BLOCKS,
    ensures
        ({
            let sb = layout(total);
            &&& byte_address(sb.bitmap_start_block, 0) >= 2048
            &&& byte_address(sb.bitmap_start_block, 0) + sb.total_block <= byte_address(
                sb.inode_bitmap_start() as u32,
                0,
            )
            &&& byte_address(sb.inode_bitmap_start() as u32, 0) + sb.inode_slots()
                <= byte_address(sb.data_start_block, 0)
            &&& inode_addr(sb, 0) == 1024
        }),
{
    let sb = layout(total);
    lemma_layout_bounds(total);
    lemma_inode_place(sb, 0);
    let slots = sb.inode_slots();
    assert(blocks_for(total as int) * 1024 >= total) by (nonlinear_arith)
        requires
            total >= 0,
    {
        vstd::arithmetic::div_mod::lemma_fundamental_div_mod(total as int + 1023, 1024);
    }
    assert(blocks_for(slots) * 1024 >= slots) by (nonlinear_arith)
        requires
            slots >= 0,
    {
        vstd::arithmetic::div_mod::lemma_fundamental_div_mod(slots + 1023, 1024);
    }
}

#[verifier::rlimit(60)]
pub proof fn lemma_mount_after_format(disk: Seq<u8>, partition_size: u64)
    requires
        valid_partition_size(partition_size),
    ensures
        ({
            let sb = layout((partition_size / 1024) as u32);
            let d = formatted(disk, sb);
            &&& mountable(d)
            &&& image_superblock(d) == Some(sb)
            &&& sb.magic == MAGIC
            &&& image_blocks(d, sb) == initial_blocks(sb)
            &&& image_inodes(d, sb) == initial_inodes(sb)
            &&& bitmaps_stored(d, sb)
        }),
{
    let total = (partition_size / 1024) as u32;
    let sb = layout(total);
    lemma_layout_bounds(total);
    lemma_inode_place(sb, 0);
    let bs = byte_address(sb.bitmap_start_block, 0);
    let ibs = byte_address(sb.inode_bitmap_start() as u32, 0);
    let ds = byte_address(sb.data_start_block, 0);
    let slots = sb.inode_slots();
    lemma_layout_regions(total);
    let sbb = superblock_bytes(sb);
    let d1 = written(disk, 0, sbb);
    let d2 = written(d1, inode_addr(sb, 0), inode_bytes(root_inode(sb)));
    let d3 = written(d2, bs, initial_blocks(sb));
    let d4 = written(d3, ibs, initial_inodes(sb));
    let d5 = written(d4, ds, dir_entry_bytes(0, name_field(dot())));
    let d6 = written(
        d5,
        byte_address(sb.data_start_block, DIR_ENTRY_SIZE as u32),
        dir_entry_bytes(0, name_field(dot_dot())),
    );
    assert(inode_addr(sb, 0) == 1024);
    assert(sbb.len() == SUPERBLOCK_SIZE);
    assert(inode_bytes(root_inode(sb)).len() == INODE_SIZE);
    assert(dir_entry_bytes(0, name_field(dot())).len() == DIR_ENTRY_SIZE);
    assert(dir_entry_bytes(0, name_field(dot_dot())).len() == DIR_ENTRY_SIZE);
    // The superblock reads back through every later write.
    lemma_written_reads_back(disk, 0, sbb);
    lemma_written_reads_back(d1, 1024, inode_bytes(root_inode(sb)));
    lemma_written_elsewhere(d1, 1024, inode_bytes(root_inode(sb)), 0, SUPERBLOCK_SIZE as int);
    lemma_written_reads_back(d2, bs, initial_blocks(sb));
    lemma_written_elsewhere(d2, bs, initial_blocks(sb), 0, SUPERBLOCK_SIZE as int);
    lemma_written_reads_back(d3, ibs, initial_inodes(sb));
    lemma_written_elsewhere(d3, ibs, initial_inodes(sb), 0, SUPERBLOCK_SIZE as int);
    lemma_written_elsewhere(d3, ibs, initial_inodes(sb), bs, total as int);
    lemma_written_reads_back(d4, ds, dir_entry_bytes(0, name_field(dot())));
    lemma_written_elsewhere(d4, ds, dir_entry_bytes(0, name_field(dot())), 0, SUPERBLOCK_SIZE as int);
    lemma_written_elsewhere(d4, ds, dir_entry_bytes(0, name_field(dot())), bs, total as int);
    lemma_written_elsewhere(d4, ds, dir_entry_bytes(0, name_field(dot())), ibs, slots);
    let e2 = dir_entry_bytes(0, name_field(dot_dot()));
    let at2 = byte_address(sb.data_start_block, DIR_ENTRY_SIZE as u32);
    lemma_written_reads_back(d5, at2, e2);
    lemma_written_elsewhere(d5, at2, e2, 0, SUPERBLOCK_SIZE as int);
    lemma_written_elsewhere(d5, at2, e2, bs, total as int);
    lemma_written_elsewhere(d5, at2, e2, ibs, slots);
    assert(d6 == formatted(disk, sb));
    assert(bytes_at(d6, 0, SUPERBLOCK_SIZE as int) == sbb);
    lemma_superblock_round_trip(sb);
    assert(image_superblock(d6) == Some(sb));
    assert(image_blocks(d6, sb) == initial_blocks(sb));
    assert(image_inodes(d6, sb) == initial_inodes(sb));
}

/// A slot array that is not all used has a lowest free slot.
pub proof fn lemma_first_free_exists(s: Seq<u8>)
    requires
        !all_used(s),
    ensures
        first_free(s, lowest_free(s)),
{
    let j = choose|j: int| 0 <= j < s.len() && s[j] == 0;
    lemma_free_below(s, j + 1);
}

proof fn lemma_free_below(s: Seq<u8>, n: int)
    requires
        0 <= n <= s.len(),
        exists|j: int| 0 <= j < n && s[j] == 0,
    ensures
        exists|i: int| first_free(s, i),
    decreases n,
{
    if exists|j: int| 0 <= j < n - 1 && s[j] == 0 {
        lemma_free_below(s, n - 1);
    } else {
        assert(first_free(s, n - 1));
    }
}

/// Two allocations in a row hand out different blocks and different inode
/// ids, and both stay marked used.
pub proof fn lemma_alloc_next_distinct(st: FsState, b1: u32, i1: u32, b2: u32, i2: u32)
    requires
        st.blocks.len() <= u32::MAX,
        st.inodes.len() <= 0x1_0000_0000,
        alloc_plan(st) == Ok::<(u32, u32), FsError>((b1, i1)),
        alloc_plan(after_alloc(st, b1, i1)) == Ok::<(u32, u32), FsError>((b2, i2)),
    ensures
        b1 != b2,
        i1 != i2,
        marked(after_alloc(after_alloc(st, b1, i1), b2, i2).blocks, b1 as int),
        marked(after_alloc(after_alloc(st, b1, i1), b2, i2).inodes, i1 as int),
{
    let s1 = after_alloc(st, b1, i1);
    lemma_first_free_exists(st.blocks);
    lemma_first_free_exists(st.inodes);
    lemma_first_free_exists(s1.blocks);
    lemma_first_free_exists(s1.inodes);
}

/// The results of `n` allocations in a row from `st`, and the state they
/// leave; allocation stops at the first failure.
pub open spec fn alloc_run(st: FsState, n: nat) -> (Seq<(u32, u32)>, FsState)
    decreases n,
{
    if n == 0 {
        (Seq::empty(), st)
    } else {
        let (prev, s) = alloc_run(st, (n - 1) as nat);
        match alloc_plan(s) {
            Ok((b, i)) => (prev.push((b, i)), after_alloc(s, b, i)),
            Err(_) => (prev, s),
        }
    }
}

/// Over any run of allocations, the blocks handed out are pairwise
/// distinct, so are the inode ids, and each of them is marked used in its
/// bitmap afterwards.
pub proof fn lemma_alloc_run_distinct(st: FsState, n: nat)
    requires
        st.blocks.len() <= u32::MAX,
        st.inodes.len() <= 0x1_0000_0000,
    ensures
        ({
            let (res, end) = alloc_run(st, n);
            &&& forall|j: int, k: int|
                0 <= j < k < res.len() ==> res[j].0 != res[k].0 && res[j].1 != res[k].1
            &&& forall|j: int|
                0 <= j < res.len() ==> marked(end.blocks, res[j].0 as int) && marked(
                    end.inodes,
                    res[j].1 as int,
                )
            &&& end.blocks.len() == st.blocks.len()
            &&& end.inodes.len() == st.inodes.len()
        }),
    decreases n,
{
    if n > 0 {
        lemma_alloc_run_distinct(st, (n - 1) as nat);
        let (prev, s) = alloc_run(st, (n - 1) as nat);
        if let Ok((b, i)) = alloc_plan(s) {
            lemma_first_free_exists(s.blocks);
            lemma_first_free_exists(s.inodes);
            let (res, end) = alloc_run(st, n);
            assert(res == prev.push((b, i)));
            assert forall|j: int| 0 <= j < prev.len() implies res[j].0 != b && res[j].1 != i by {
                assert(res[j] == prev[j]);
            }
            assert forall|j: int|
                0 <= j < res.len() implies marked(end.blocks, res[j].0 as int) && marked(
                end.inodes,
                res[j].1 as int,
            ) by {
                if j < prev.len() {
                    assert(res[j] == prev[j]);
                }
            }
        }
    }
}

} // verus!
