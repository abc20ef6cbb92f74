use proka_fs::definition::{DirEntry, FileType, SuperBlock};
use proka_fs::{BlockDevice, DeviceError, FileSystem, FsError, MemBlockDevice};

const MIB: u64 = 1024 * 1024;

fn formatted_device(size: u64) -> MemBlockDevice {
    let mut dev = MemBlockDevice::new(size as usize);
    proka_fs::fs::format(&mut dev, size).unwrap();
    dev
}

fn mounted(size: u64) -> FileSystem<MemBlockDevice> {
    FileSystem::mount(formatted_device(size)).unwrap()
}

fn is_unoccupied(e: &DirEntry) -> bool {
    e.inode == 0 && e.name.iter().all(|&b| b == 0)
}

fn name_of(e: &DirEntry) -> String {
    let end = e.name.iter().position(|&b| b == 0).unwrap_or(e.name.len());
    String::from_utf8(e.name[..end].to_vec()).unwrap()
}

#[test]
fn mem_device_reads_back_writes() {
    let mut dev = MemBlockDevice::new(4096);
    assert_eq!(dev.size(), 4096);
    dev.write_block(2, 10, &[1, 2, 3]).unwrap();
    let mut buf = [0u8; 5];
    dev.read_block(2, 9, &mut buf).unwrap();
    assert_eq!(buf, [0, 1, 2, 3, 0]);
}

#[test]
fn mem_device_refuses_out_of_range() {
    let mut dev = MemBlockDevice::new(2048);
    let mut buf = [0u8; 2];
    assert_eq!(dev.read_block(1, 1023, &mut buf), Err(DeviceError::OutOfRange));
    assert_eq!(dev.write_block(2, 0, &[1]), Err(DeviceError::OutOfRange));
    assert_eq!(dev.write_block(1, 1023, &[9]), Ok(()));
}

#[test]
fn format_then_mount_64_mib() {
    let fs = mounted(64 * MIB);
    assert_eq!(fs.super_block.magic, 0x504B4653);
    assert_eq!(fs.super_block, SuperBlock::new(64 * MIB));
}

#[test]
fn format_then_mount_various_sizes() {
    for size in [64 * 1024u64, 100 * 1024, 1000 * 1024 + 17, 3 * MIB] {
        let fs = mounted(size);
        assert_eq!(fs.super_block.magic, 0x504B4653);
        assert_eq!(fs.super_block.total_block as u64, size / 1024);
    }
}

#[test]
fn format_refuses_tiny_partition() {
    let mut dev = MemBlockDevice::new(4096);
    assert_eq!(proka_fs::fs::format(&mut dev, 63 * 1024), Err(FsError::InvalidPartitionSize));
    let mut buf = [1u8; 4096];
    dev.read_block(0, 0, &mut buf).unwrap();
    assert!(buf.iter().all(|&b| b == 0));
}

#[test]
fn format_on_short_device_fails_with_device_error() {
    let mut dev = MemBlockDevice::new(4096);
    assert_eq!(proka_fs::fs::format(&mut dev, 64 * 1024), Err(FsError::Device(DeviceError::OutOfRange)));
}

#[test]
fn mount_blank_device_is_invalid() {
    let dev = MemBlockDevice::new(64 * 1024);
    assert!(matches!(FileSystem::mount(dev), Err(FsError::InvalidSuperblock)));
}

#[test]
fn mount_with_wrong_magic_is_invalid() {
    let mut dev = formatted_device(64 * 1024);
    dev.write_block(0, 0, &[0, 0, 0, 0]).unwrap();
    assert!(matches!(FileSystem::mount(dev), Err(FsError::InvalidSuperblock)));
}

#[test]
fn mount_marks_reserved_blocks_used() {
    let mut dev = formatted_device(64 * 1024);
    let sb = SuperBlock::new(64 * 1024);
    dev.write_block(sb.bitmap_start_block, 1, &[0]).unwrap();
    let fs = FileSystem::mount(dev).unwrap();
    assert_eq!(fs.block_bitmap[1], 1);
}

fn hand_made_superblock(block_size: u32, bitmap_start: u32, data_start: u32, total: u32) -> MemBlockDevice {
    let mut dev = MemBlockDevice::new(64 * 1024);
    let sb = SuperBlock {
        magic: 0x504B4653,
        block_size,
        bitmap_start_block: bitmap_start,
        data_start_block: data_start,
        total_block: total,
    };
    dev.write_block(0, 0, &sb.as_bytes()).unwrap();
    dev
}

#[test]
fn mount_accepts_any_usable_layout() {
    let dev = hand_made_superblock(1024, 10, 30, 64);
    let mut fs = FileSystem::mount(dev).unwrap();
    assert_eq!(fs.super_block.data_start_block, 30);
    assert_eq!(fs.inode_bitmap.len(), 9 * 32);
    assert_eq!(fs.block_bitmap[29], 1);
    assert_eq!(fs.block_bitmap[30], 0);
    let (inode, block) = fs.alloc_inode(FileType::Regular).unwrap();
    assert_eq!(block, 30);
    assert_eq!(inode.inode_id, 0);
}

#[test]
fn mount_refuses_degenerate_layouts() {
    for (bs, start, data, total) in [(0, 10, 30, 64), (1024, 0, 30, 64), (1024, 30, 30, 64), (1024, 10, 65, 64), (1024, 10, 11, 64)] {
        let dev = hand_made_superblock(bs, start, data, total);
        assert!(matches!(FileSystem::mount(dev), Err(FsError::InvalidSuperblock)));
    }
}

#[test]
fn mount_of_too_short_device_fails() {
    let dev = MemBlockDevice::new(10);
    assert!(matches!(
        FileSystem::mount(dev),
        Err(FsError::Device(DeviceError::OutOfRange))
    ));
}

#[test]
fn fresh_root_lists_dot_and_dot_dot() {
    let mut fs = mounted(64 * 1024);
    let entries = fs.ls(0).unwrap();
    assert_eq!(entries.len(), 4);
    assert!(is_unoccupied(&entries[2]));
    assert!(is_unoccupied(&entries[3]));
    assert_eq!(name_of(&entries[0]), ".");
    assert_eq!(name_of(&entries[1]), "..");
    assert_eq!(entries[0].inode, 0);
    assert_eq!(entries[1].inode, 0);
}

#[test]
fn root_inode_after_format() {
    let mut fs = mounted(64 * MIB);
    let root = fs.get_inode(0).unwrap();
    assert!(root.is_used);
    assert_eq!(root.inode_id, 0);
    assert_eq!(root.file_type, FileType::Directory);
    assert_eq!(root.head_block, 2177);
    assert_eq!(root.file_length, 512);
    assert_eq!(fs.get_inode(1), None);
    assert_eq!(fs.get_inode(u32::MAX), None);
}

#[test]
fn get_max_inode_of_64_mib() {
    let fs = mounted(64 * MIB);
    assert_eq!(fs.get_max_inode(), 69632);
}

#[test]
fn alloc_inode_takes_first_free_data_block() {
    let mut fs = mounted(64 * MIB);
    let (inode, block) = fs.alloc_inode(FileType::Regular).unwrap();
    assert_eq!(block, 2178);
    assert_eq!(inode.inode_id, 1);
    assert_eq!(inode.head_block, 2178);
    assert_eq!(inode.file_length, 0);
    assert_eq!(inode.file_type, FileType::Regular);
    assert!(inode.is_used);
    assert_eq!(fs.block_bitmap[2178], 1);
    assert_eq!(fs.inode_bitmap[1], 1);
}

#[test]
fn alloc_inode_results_are_distinct_and_marked() {
    let mut fs = mounted(64 * 1024);
    let mut blocks = Vec::new();
    let mut ids = Vec::new();
    for _ in 0..20 {
        let (inode, block) = fs.alloc_inode(FileType::Regular).unwrap();
        assert!(block >= fs.super_block.data_start_block);
        blocks.push(block);
        ids.push(inode.inode_id);
    }
    for i in 0..blocks.len() {
        assert!(fs.block_bitmap[blocks[i] as usize] != 0);
        assert!(fs.inode_bitmap[ids[i] as usize] != 0);
        for j in (i + 1)..blocks.len() {
            assert_ne!(blocks[i], blocks[j]);
            assert_ne!(ids[i], ids[j]);
        }
    }
}

#[test]
fn alloc_inode_runs_out_of_blocks() {
    let mut fs = mounted(64 * 1024);
    for _ in 0..58 {
        fs.alloc_inode(FileType::Regular).unwrap();
    }
    let before = fs.inode_bitmap.clone();
    assert_eq!(fs.alloc_inode(FileType::Regular), Err(FsError::NoFreeBlock));
    assert_eq!(fs.inode_bitmap, before);
}

#[test]
fn alloc_inode_runs_out_of_inodes() {
    let mut fs = mounted(64 * 1024);
    for b in fs.inode_bitmap.iter_mut() {
        *b = 1;
    }
    let blocks = fs.block_bitmap.clone();
    assert_eq!(fs.alloc_inode(FileType::Directory), Err(FsError::NoFreeInode));
    assert_eq!(fs.block_bitmap, blocks);
}

#[test]
fn mkdir_docs_in_root() {
    let mut fs = mounted(64 * MIB);
    fs.mkdir(0, "docs").unwrap();
    let root = fs.ls(0).unwrap();
    assert_eq!(root.len(), 4);
    assert_eq!(root.iter().filter(|e| !is_unoccupied(e)).count(), 3);
    let docs = root.iter().find(|e| name_of(e) == "docs").unwrap();
    assert_eq!(docs.inode, 1);
    let dir = fs.get_inode(docs.inode).unwrap();
    assert_eq!(dir.file_type, FileType::Directory);
    let inner = fs.ls(docs.inode).unwrap();
    assert_eq!(inner.len(), 4);
    assert_eq!(inner.iter().filter(|e| !is_unoccupied(e)).count(), 2);
    assert_eq!(name_of(&inner[0]), ".");
    assert_eq!(inner[0].inode, docs.inode);
    assert_eq!(name_of(&inner[1]), "..");
    assert_eq!(inner[1].inode, 0);
}

#[test]
fn mkfile_twice_with_different_names() {
    let mut fs = mounted(64 * MIB);
    fs.mkfile(0, "a.txt").unwrap();
    fs.mkfile(0, "b.txt").unwrap();
    let root = fs.ls(0).unwrap();
    let a = root.iter().find(|e| name_of(e) == "a.txt").unwrap();
    let b = root.iter().find(|e| name_of(e) == "b.txt").unwrap();
    assert_ne!(a.inode, b.inode);
    assert_eq!(fs.get_inode(a.inode).unwrap().file_type, FileType::Regular);
    assert_eq!(fs.get_inode(b.inode).unwrap().file_length, 0);
    assert_eq!(fs.get_inode(0).unwrap().file_length, 4 * 256);
}

#[test]
fn directory_full_after_block_capacity() {
    let mut fs = mounted(64 * MIB);
    assert_eq!(fs.add_dir_entry(0, "one", 0), Ok(()));
    assert_eq!(fs.add_dir_entry(0, "two", 0), Ok(()));
    assert_eq!(fs.add_dir_entry(0, "three", 0), Err(FsError::DirectoryFull));
    assert_eq!(fs.add_dir_entry(0, "four", 0), Err(FsError::DirectoryFull));
    assert_eq!(fs.ls(0).unwrap().len(), 4);
}

#[test]
fn mkfile_in_full_directory_fails_cleanly() {
    let mut fs = mounted(64 * MIB);
    fs.mkfile(0, "a").unwrap();
    fs.mkfile(0, "b").unwrap();
    assert_eq!(fs.mkfile(0, "c"), Err(FsError::DirectoryFull));
    let names: Vec<String> = fs.ls(0).unwrap().iter().map(|e| name_of(e)).collect();
    assert_eq!(names, vec![".", "..", "a", "b"]);
}

#[test]
fn mkfile_in_missing_parent() {
    let mut fs = mounted(64 * MIB);
    assert_eq!(fs.mkfile(999, "x"), Err(FsError::ParentNotFound));
    assert_eq!(fs.add_dir_entry(5, "x", 0), Err(FsError::ParentNotFound));
}

#[test]
fn ls_of_missing_inode() {
    let mut fs = mounted(64 * MIB);
    assert!(matches!(fs.ls(7), Err(FsError::InodeNotFound)));
}

#[test]
fn long_names_are_truncated_in_listing() {
    let mut fs = mounted(64 * MIB);
    let long: String = std::iter::repeat('n').take(300).collect();
    fs.mkfile(0, &long).unwrap();
    let root = fs.ls(0).unwrap();
    assert_eq!(name_of(&root[2]).len(), 251);
}

#[test]
fn nested_directories() {
    let mut fs = mounted(64 * MIB);
    fs.mkdir(0, "a").unwrap();
    fs.mkdir(1, "b").unwrap();
    fs.mkfile(2, "c").unwrap();
    let b = fs.ls(1).unwrap();
    assert_eq!(name_of(&b[2]), "b");
    assert_eq!(b[2].inode, 2);
    let c = fs.ls(2).unwrap();
    assert_eq!(c.len(), 4);
    assert!(is_unoccupied(&c[3]));
    assert_eq!(c[1].inode, 1);
    assert_eq!(name_of(&c[2]), "c");
    assert_eq!(c[2].inode, 3);
}

#[test]
fn sync_persists_allocation_across_mounts() {
    let mut fs = mounted(64 * 1024);
    fs.mkfile(0, "kept").unwrap();
    fs.sync().unwrap();
    let dev = fs.block_device;
    let mut again = FileSystem::mount(dev).unwrap();
    assert_eq!(again.inode_bitmap[1], 1);
    let root = again.ls(0).unwrap();
    assert_eq!(name_of(&root[2]), "kept");
    again.mkfile(0, "next").unwrap();
    let root = again.ls(0).unwrap();
    assert_ne!(root[3].inode, root[2].inode);
}

#[test]
fn without_sync_allocation_is_not_persisted() {
    let mut fs = mounted(64 * 1024);
    fs.alloc_inode(FileType::Regular).unwrap();
    let dev = fs.block_device;
    let again = FileSystem::mount(dev).unwrap();
    assert_eq!(again.inode_bitmap[1], 0);
}
