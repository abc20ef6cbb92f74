//! An on-disk filesystem format on a block device: superblock, byte-per-slot
//! allocation bitmaps, a fixed inode table and single-block directories.

pub mod bitmap;
pub mod codec;
pub mod definition;
pub mod device;
pub mod direntry;
pub mod fs;
pub mod inode;
pub mod model;
pub mod superblock;

pub use bitmap::{Bitmap, BlockBitmap};
pub use device::{BlockDevice, DeviceError, MemBlockDevice, BLOCK_SIZE};
pub use direntry::convert_name;
pub use fs::{FileSystem, FsError};

