use vstd::prelude::*;

verus! {

/// What can go wrong in a filesystem operation.
#[derive(Debug, Clone, Copy, PartialEq, Eq, Structural)]
pub enum FsError {
    /// A read or write on the medium failed.
    IoError,
    /// An entry name is longer than `MAX_FILE_NAME_SIZE` bytes.
    NameTooLong,
    /// Every inode is in use.
    NoFreeInodes,
    /// Every data block is in use.
    NoFreeBlocks,
    /// No entry has the inode number or name looked for.
    NotFound,
    /// The geometry read from (or asked of) the medium is inconsistent.
    CorruptLayout,
}

} // verus!
