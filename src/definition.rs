//! The on-disk records, gathered in one place.

pub use crate::direntry::DirEntry;
pub use crate::inode::{FileType, Inode};
pub use crate::superblock::SuperBlock;
