//! A minimal disk-image filesystem: superblock, inode and block bitmaps,
//! fixed-size inode records, all laid out byte-exactly on a storage medium.

pub mod util;
pub mod error;
pub mod bits;
pub mod medium;
pub mod bytes;
pub mod block;
pub mod super_block;
pub mod bitmap;
pub mod inode_bitmap;
pub mod block_bitmap;
pub mod inode;
pub mod fs_metadata;
pub mod entity;
pub mod fs;
