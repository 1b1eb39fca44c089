use vstd::prelude::*;

verus! {

/// Size of a virtual-memory page in bytes.
pub const PAGE_SIZE: usize = 4096;

/// Number of address bits inside one page.
pub const PAGE_SIZE_BITS: usize = 12;

/// Width of a virtual address under the SV39 paging scheme.
pub const VA_WIDTH_SV39: usize = 39;

/// Number of system-call ids whose use is counted per task.
pub const MAX_SYSCALL_NUM: usize = 500;

/// Size of one disk block of easy-fs.
pub const BLOCK_SZ: usize = 512;

/// Size of one on-disk inode; a block holds `BLOCK_SZ / DISK_INODE_SIZE` of them.
pub const DISK_INODE_SIZE: usize = 128;

/// Number of on-disk inodes stored in one block.
pub const INODES_PER_BLOCK: u32 = 4;

/// Size of one directory entry on disk.
pub const DIRENT_SZ: usize = 32;

/// Longest file name, in bytes, that a directory entry can hold
/// (the entry keeps one more byte for the terminating zero).
pub const NAME_LENGTH_LIMIT: usize = 27;

/// Number of data blocks an inode addresses directly.
pub const INODE_DIRECT_COUNT: usize = 28;

/// Number of data blocks reachable through the first-level indirect block.
pub const INODE_INDIRECT1_COUNT: usize = 128;

/// Number of data blocks reachable through the second-level indirect block.
pub const INODE_INDIRECT2_COUNT: usize = 16384;

/// Number of data blocks an inode reaches without its second-level indirect block.
pub const INODE_INDIRECT1_BOUND: usize = 156;

/// Largest size in bytes that a single inode can reach:
/// `(INODE_DIRECT_COUNT + INODE_INDIRECT1_COUNT + INODE_INDIRECT2_COUNT) * BLOCK_SZ`.
pub const MAX_FILE_SIZE: usize = 8468480;

} // verus!
