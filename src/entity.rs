//! Directories and files: an inode with a place in the hierarchy.
//!
//! Creating an entry takes the lowest free inode, marks it in use, writes
//! the inode record, then the superblock and the inode bitmap. The steps are
//! not atomic: a failed write can leave the medium part-way through.
use vstd::prelude::*;
use crate::bitmap::bitmap_image;
use crate::error::FsError;
use crate::fs_metadata::fs_metadata;
use crate::inode::{FileType, Inode, inode_offset, is_fresh_inode};
use crate::inode_bitmap::{is_all_set, is_lowest_free};
use crate::medium::{Medium, overwrite};
use crate::super_block::SuperBlock;
use crate::util::{MAX_FILE_NAME_SIZE, Path, SUPER_BLOCK_FILE_OFFSET, name_text};

verus! {

/// `new` is `old` after an entry with inode `inode` was created: the inode
/// is a fresh one for `parent`, `name` and `file_type`, it is marked in use,
/// the free-inode count dropped by one, and the inode record, the
/// superblock and the inode bitmap were written, in that order.
pub open spec fn entry_created<M: Medium>(
    old: fs_metadata<M>,
    new: fs_metadata<M>,
    parent: u16,
    name: Seq<u8>,
    file_type: FileType,
    inode: Inode,
) -> bool {
    let n = inode.inode_number;
    let sb = new.super_block;
    &&& name.len() <= MAX_FILE_NAME_SIZE
    &&& is_fresh_inode(inode, old.inode_bitmap@, parent, name, file_type)
    &&& new.wf()
    &&& new.inode_bitmap@ == old.inode_bitmap@.update(n as int, true)
    &&& sb == (SuperBlock {
        free_inodes: if old.super_block.free_inodes > 0 {
            (old.super_block.free_inodes - 1) as u16
        } else {
            0
        },
        ..old.super_block
    })
    &&& new.block_bitmap == old.block_bitmap
    &&& new.medium.contents() == overwrite(
        overwrite(
            overwrite(old.medium.contents(), inode_offset(old.super_block, n), inode.spec_bytes()),
            SUPER_BLOCK_FILE_OFFSET as int,
            sb.spec_bytes(),
        ),
        sb.block_size() as int,
        bitmap_image(new.inode_bitmap.raw(), sb.inode_bitmap_block_count as nat, sb.block_size()),
    )
}

/// Creating an entry named `name` failed with `e`: for a name longer than
/// `MAX_FILE_NAME_SIZE` bytes with `NameTooLong`, else, when every inode is
/// in use, with `NoFreeInodes`, and in both cases nothing changed; otherwise
/// a write failed.
pub open spec fn entry_failed<M: Medium>(
    old: fs_metadata<M>,
    new: fs_metadata<M>,
    name: Seq<u8>,
    e: FsError,
) -> bool {
    if name.len() > MAX_FILE_NAME_SIZE {
        e == FsError::NameTooLong && new == old
    } else if is_all_set(old.inode_bitmap@) {
        e == FsError::NoFreeInodes && new == old
    } else {
        e == FsError::IoError && new.wf()
    }
}

/// Creates the inode of a new entry and writes it: allocate, mark in use,
/// write the inode, write the superblock and the inode bitmap.
fn create_entry<T: Path, M: Medium>(
    parent: u16,
    name: T,
    file_type: FileType,
    metadata: &mut fs_metadata<M>,
) -> (r: Result<Inode, FsError>)
    requires
        old(metadata).wf(),
    ensures
        match r {
            Ok(inode) => entry_created(
                *old(metadata),
                *final(metadata),
                parent,
                name_text(name.path_bytes()),
                file_type,
                inode,
            ),
            Err(e) => entry_failed(*old(metadata), *final(metadata), name_text(name.path_bytes()), e),
        },
{
    let inode = Inode::create_new(parent, name, file_type, metadata)?;
    metadata.set_inode_in_bitmap(inode.inode_number);
    metadata.persist_inode(&inode)?;
    metadata.persist_inode_bitmap()?;
    Ok(inode)
}

/// A directory.
pub struct Directory {
    pub inode: Inode,
}

impl Directory {
    /// Creates a directory named `name` under `parent`, or the root when
    /// there is no parent (its parent is then inode 0).
    pub fn new<T: Path, M: Medium>(
        name: T,
        parent: Option<&Directory>,
        metadata: &mut fs_metadata<M>,
    ) -> (r: Result<Directory, FsError>)
        requires
            old(metadata).wf(),
        ensures
            ({
                let parent_number: u16 = match parent {
                    Some(p) => p.inode.inode_number,
                    None => 0,
                };
                match r {
                    Ok(dir) => entry_created(
                        *old(metadata),
                        *final(metadata),
                        parent_number,
                        name_text(name.path_bytes()),
                        FileType::Directory,
                        dir.inode,
                    ),
                    Err(e) => entry_failed(
                        *old(metadata),
                        *final(metadata),
                        name_text(name.path_bytes()),
                        e,
                    ),
                }
            }),
    {
        let parent_number = match parent {
            Some(p) => p.get_inode_number(),
            None => 0,
        };
        let inode = create_entry(parent_number, name, FileType::Directory, metadata)?;
        Ok(Directory { inode })
    }

    /// Loads the directory whose inode is `inode_num`. Fails with
    /// `NotFound` when that inode is not in use.
    pub fn load<M: Medium>(inode_num: u16, metadata: &fs_metadata<M>) -> (r: Result<Directory, FsError>)
        requires
            metadata.wf(),
        ensures
            match r {
                Ok(dir) => {
                    let off = inode_offset(metadata.super_block, inode_num);
                    dir.inode.decoded_from(
                        metadata.medium.contents().subrange(off, off + crate::util::INODE_SIZE),
                    )
                },
                Err(e) => if inode_num >= metadata.super_block.total_inodes
                    || !metadata.inode_bitmap@[inode_num as int] {
                    e == FsError::NotFound
                } else {
                    e == FsError::IoError || e == FsError::CorruptLayout
                },
            },
    {
        let inode = metadata.load_inode(inode_num)?;
        Ok(Directory { inode })
    }

    /// The directory's inode number.
    pub fn get_inode_number(&self) -> (r: u16)
        ensures
            r == self.inode.inode_number,
    {
        self.inode.inode_number
    }

    /// Creates a directory named `name` in this one.
    pub fn create_new_directory<T: Path, M: Medium>(
        &mut self,
        name: T,
        metadata: &mut fs_metadata<M>,
    ) -> (r: Result<Directory, FsError>)
        requires
            old(metadata).wf(),
        ensures
            *final(self) == *old(self),
            match r {
                Ok(dir) => entry_created(
                    *old(metadata),
                    *final(metadata),
                    old(self).inode.inode_number,
                    name_text(name.path_bytes()),
                    FileType::Directory,
                    dir.inode,
                ),
                Err(e) => entry_failed(*old(metadata), *final(metadata), name_text(name.path_bytes()), e),
            },
    {
        Directory::new(name, Some(&*self), metadata)
    }

    /// Creates a file named `name` in this directory.
    pub fn create_new_file<T: Path, M: Medium>(
        &mut self,
        name: T,
        metadata: &mut fs_metadata<M>,
    ) -> (r: Result<file, FsError>)
        requires
            old(metadata).wf(),
        ensures
            *final(self) == *old(self),
            match r {
                Ok(f) => entry_created(
                    *old(metadata),
                    *final(metadata),
                    old(self).inode.inode_number,
                    name_text(name.path_bytes()),
                    FileType::File,
                    f.inode,
                ),
                Err(e) => entry_failed(*old(metadata), *final(metadata), name_text(name.path_bytes()), e),
            },
    {
        file::new(name, &*self, metadata)
    }
}

/// A regular file.
#[allow(non_camel_case_types)]
pub struct file {
    pub inode: Inode,
}

impl file {
    /// Creates a file named `name` in `parent`.
    pub fn new<T: Path, M: Medium>(name: T, parent: &Directory, metadata: &mut fs_metadata<M>) -> (r: Result<file, FsError>)
        requires
            old(metadata).wf(),
        ensures
            match r {
                Ok(f) => entry_created(
                    *old(metadata),
                    *final(metadata),
                    parent.inode.inode_number,
                    name_text(name.path_bytes()),
                    FileType::File,
                    f.inode,
                ),
                Err(e) => entry_failed(*old(metadata), *final(metadata), name_text(name.path_bytes()), e),
            },
    {
        let inode = create_entry(parent.get_inode_number(), name, FileType::File, metadata)?;
        Ok(file { inode })
    }
}

/// Each creation of an entry takes the lowest free inode and marks it in use.
pub proof fn lemma_entry_allocates<M: Medium>(
    old: fs_metadata<M>,
    new: fs_metadata<M>,
    parent: u16,
    name: Seq<u8>,
    file_type: FileType,
    inode: Inode,
)
    requires
        entry_created(old, new, parent, name, file_type, inode),
    ensures
        is_lowest_free(old.inode_bitmap@, inode.inode_number as int),
        new.inode_bitmap@ == old.inode_bitmap@.update(inode.inode_number as int, true),
{
}

proof fn lemma_allocation_prefix(bitmaps: Seq<Seq<bool>>, numbers: Seq<int>, k: int)
    requires
        bitmaps.len() == numbers.len() + 1,
        0 <= k <= numbers.len(),
        forall|i: int| 0 <= i < bitmaps[0].len() ==> !#[trigger] bitmaps[0][i],
        forall|j: int|
            0 <= j < numbers.len() ==> is_lowest_free(#[trigger] bitmaps[j], numbers[j])
                && bitmaps[j + 1] == bitmaps[j].update(numbers[j], true),
    ensures
        bitmaps[k] == Seq::new(bitmaps[0].len(), |i: int| i < k),
        forall|j: int| 0 <= j < k ==> #[trigger] numbers[j] == j,
    decreases k,
{
    let len = bitmaps[0].len();
    if k == 0 {
        assert(bitmaps[0] =~= Seq::new(len, |i: int| i < 0));
    } else {
        lemma_allocation_prefix(bitmaps, numbers, k - 1);
        let prev = bitmaps[k - 1];
        let n = numbers[k - 1];
        assert(is_lowest_free(prev, n));
        if n < k - 1 {
            assert(prev[n]);
        }
        if n > k - 1 {
            assert(prev[k - 1]);
        }
        assert(bitmaps[k] =~= Seq::new(len, |i: int| i < k));
    }
}

/// Taking the lowest free inode and marking it in use, again and again from
/// an inode bitmap with every inode free (what each creation of an entry
/// does), hands out inode numbers 0, 1, 2, ... in order, and afterwards
/// exactly the bits of the numbers handed out are set.
pub proof fn lemma_sequential_allocation(bitmaps: Seq<Seq<bool>>, numbers: Seq<int>)
    requires
        bitmaps.len() == numbers.len() + 1,
        forall|i: int| 0 <= i < bitmaps[0].len() ==> !#[trigger] bitmaps[0][i],
        forall|j: int|
            0 <= j < numbers.len() ==> is_lowest_free(#[trigger] bitmaps[j], numbers[j])
                && bitmaps[j + 1] == bitmaps[j].update(numbers[j], true),
    ensures
        forall|j: int| 0 <= j < numbers.len() ==> #[trigger] numbers[j] == j,
        bitmaps[numbers.len() as int] == Seq::new(bitmaps[0].len(), |i: int| i < numbers.len()),
{
    lemma_allocation_prefix(bitmaps, numbers, numbers.len() as int);
}

} // verus!
