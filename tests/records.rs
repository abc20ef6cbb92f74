use proka_fs::convert_name;
use proka_fs::definition::{DirEntry, FileType, Inode, SuperBlock};

#[test]
fn superblock_layout_of_64_mib() {
    let sb = SuperBlock::new(64 * 1024 * 1024);
    assert_eq!(sb.magic, 0x504B4653);
    assert_eq!(sb.block_size, 1024);
    assert_eq!(sb.total_block, 65536);
    assert_eq!(sb.bitmap_start_block, 2049);
    assert_eq!(sb.data_start_block, 2177);
}

#[test]
fn superblock_layout_of_smallest_partition() {
    let sb = SuperBlock::new(64 * 1024);
    assert_eq!(sb.total_block, 64);
    assert_eq!(sb.bitmap_start_block, 3);
    assert_eq!(sb.data_start_block, 5);
    assert!(sb.bitmap_start_block < sb.data_start_block);
    assert!(sb.data_start_block <= sb.total_block);
}

#[test]
fn superblock_layout_of_largest_partition() {
    let sb = SuperBlock::new(0xFFFF_FFFF * 1024);
    assert_eq!(sb.total_block, 0xFFFF_FFFF);
    assert_eq!(sb.bitmap_start_block, 134217729);
    assert_eq!(sb.data_start_block, 142606337);
}

#[test]
fn superblock_round_trip() {
    let sb = SuperBlock::new(64 * 1024 * 1024);
    let bytes = sb.as_bytes();
    assert_eq!(bytes.len(), 20);
    assert_eq!(&bytes[0..4], &[0x53, 0x46, 0x4B, 0x50]);
    assert_eq!(SuperBlock::from_bytes(&bytes), Some(sb));
}

#[test]
fn superblock_round_trip_extreme_fields() {
    let sb = SuperBlock {
        magic: u32::MAX,
        block_size: 0,
        bitmap_start_block: u32::MAX,
        data_start_block: 1,
        total_block: 0x8000_0000,
    };
    assert_eq!(SuperBlock::from_bytes(&sb.as_bytes()), Some(sb));
}

#[test]
fn superblock_from_short_buffer() {
    assert_eq!(SuperBlock::from_bytes(&[0u8; 19]), None);
}

#[test]
fn inode_round_trip_boundary_values() {
    let inode = Inode {
        is_used: true,
        inode_id: u32::MAX,
        file_type: FileType::Device,
        head_block: u32::MAX,
        file_length: u64::MAX,
    };
    let bytes = inode.as_bytes();
    assert_eq!(bytes.len(), 32);
    assert_eq!(Inode::from_bytes(&bytes), Some(inode));
}

#[test]
fn inode_round_trip_zero_values() {
    let inode = Inode {
        is_used: false,
        inode_id: 0,
        file_type: FileType::Regular,
        head_block: 0,
        file_length: 0,
    };
    assert_eq!(Inode::from_bytes(&inode.as_bytes()), Some(inode));
}

#[test]
fn inode_byte_layout() {
    let inode = Inode {
        is_used: true,
        inode_id: 0x0102_0304,
        file_type: FileType::Directory,
        head_block: 7,
        file_length: 512,
    };
    let b = inode.as_bytes();
    assert_eq!(b[0], 1);
    assert_eq!(&b[4..8], &[4, 3, 2, 1]);
    assert_eq!(b[8], 1);
    assert_eq!(&b[12..16], &[7, 0, 0, 0]);
    assert_eq!(&b[16..24], &[0, 2, 0, 0, 0, 0, 0, 0]);
}

#[test]
fn inode_with_unknown_type_does_not_decode() {
    let mut b = vec![0u8; 32];
    b[8] = 3;
    assert_eq!(Inode::from_bytes(&b), None);
    assert_eq!(Inode::from_bytes(&[0u8; 31]), None);
}

#[test]
fn locate_first_inodes() {
    let sb = SuperBlock::new(64 * 1024 * 1024);
    assert_eq!(Inode::locate(0, &sb), (1, 0));
    assert_eq!(Inode::locate(1, &sb), (1, 32));
    assert_eq!(Inode::locate(31, &sb), (1, 992));
    assert_eq!(Inode::locate(33, &sb), (2, 32));
}

#[test]
fn locate_is_stable_and_steps_by_block() {
    let sb = SuperBlock::new(64 * 1024 * 1024);
    let per_block = sb.block_size / 32;
    for id in [0u32, 5, 31, 1000, 65535] {
        let a = Inode::locate(id, &sb);
        assert_eq!(a, Inode::locate(id, &sb));
        let b = Inode::locate(id + per_block, &sb);
        assert_eq!(b.0, a.0 + 1);
        assert_eq!(b.1, a.1);
    }
}

#[test]
fn dir_entry_round_trip() {
    let entry = DirEntry { inode: 0xDEAD_BEEF, name: convert_name(b"hello") };
    let bytes = entry.as_bytes();
    assert_eq!(bytes.len(), 256);
    assert_eq!(DirEntry::from_bytes(&bytes), Some(entry));
}

#[test]
fn dir_entry_from_short_buffer() {
    assert_eq!(DirEntry::from_bytes(&[0u8; 255]), None);
    assert_eq!(DirEntry::from_bytes_at(&[0u8; 512], 257), None);
}

#[test]
fn empty_dir_entry() {
    let e = DirEntry::empty();
    assert_eq!(e.inode, 0);
    assert!(e.name.iter().all(|&b| b == 0));
}

#[test]
fn convert_name_pads_with_nul() {
    let name = convert_name(b"docs");
    assert_eq!(&name[..4], b"docs");
    assert!(name[4..].iter().all(|&b| b == 0));
}

#[test]
fn convert_name_truncates_long_names() {
    let long = vec![b'x'; 300];
    let name = convert_name(&long);
    assert!(name[..251].iter().all(|&b| b == b'x'));
    assert_eq!(name[251], 0);
}

#[test]
fn convert_name_of_empty_name() {
    assert_eq!(convert_name(b""), [0u8; 252]);
}
