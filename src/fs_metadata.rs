//! The filesystem's metadata: superblock, inode bitmap and block bitmap,
//! together with the medium they are kept on.
use vstd::prelude::*;
use crate::bitmap::{bitmap_image, block_range, rebuilt_raw};
use crate::block_bitmap::{BlockBitmap, block_bitmap_base};
use crate::error::FsError;
use crate::inode::{Inode, inode_offset, record_is_valid};
use crate::inode_bitmap::{InodeBitmap, is_all_set, is_lowest_free};
use crate::medium::{Medium, overwrite};
use crate::super_block::{
    SuperBlock, bitmap_blocks, decode_super_block, derived_total_blocks, derived_total_inodes,
    geometry_fits,
};
use crate::util::{INODE_SIZE, SUPER_BLOCK_FILE_OFFSET, SUPER_BLOCK_SIZE};

verus! {

/// The geometry fits the superblock's fields, and the filesystem has room
/// for its superblock and both bitmaps.
pub open spec fn layout_fits(fs_size: u32, block_size: u32, bytes_per_inode: u32) -> bool {
    let ti = derived_total_inodes(fs_size, bytes_per_inode);
    let tb = derived_total_blocks(fs_size, block_size);
    geometry_fits(fs_size, block_size, bytes_per_inode) && 1 + bitmap_blocks(ti, block_size)
        + bitmap_blocks(tb, block_size) <= tb
}

/// The medium `c` after the superblock and both bitmaps of `md` were
/// written to it.
pub open spec fn with_metadata<M: Medium>(c: Seq<u8>, md: fs_metadata<M>) -> Seq<u8> {
    let sb = md.super_block;
    let bs = sb.block_size();
    let c1 = overwrite(c, SUPER_BLOCK_FILE_OFFSET as int, sb.spec_bytes());
    let c2 = overwrite(
        c1,
        bs as int,
        bitmap_image(md.inode_bitmap.raw(), sb.inode_bitmap_block_count as nat, bs),
    );
    overwrite(
        c2,
        (block_bitmap_base(sb) * bs) as int,
        bitmap_image(md.block_bitmap.raw(), sb.block_bitmap_block_count as nat, bs),
    )
}

/// The superblock, both bitmaps and the medium of one filesystem.
#[allow(non_camel_case_types)]
pub struct fs_metadata<M: Medium> {
    pub super_block: SuperBlock,
    pub inode_bitmap: InodeBitmap,
    pub block_bitmap: BlockBitmap,
    pub medium: M,
}

impl<M: Medium> fs_metadata<M> {
    /// The superblock is consistent and each bitmap has one bit per inode,
    /// or per block.
    pub open spec fn wf(&self) -> bool {
        &&& self.super_block.wf()
        &&& self.inode_bitmap.wf()
        &&& self.inode_bitmap@.len() == self.super_block.total_inodes
        &&& self.block_bitmap.wf()
        &&& self.block_bitmap@.len() == self.super_block.total_blocks
    }

    /// `self` and `other` differ at most in what the medium holds.
    pub open spec fn same_but_medium(&self, other: &Self) -> bool {
        &&& self.super_block == other.super_block
        &&& self.inode_bitmap == other.inode_bitmap
        &&& self.block_bitmap == other.block_bitmap
    }

    /// Lays out a new filesystem on `medium`: the superblock, an inode
    /// bitmap with every inode free, and a block bitmap in which the
    /// superblock's block and the blocks of both bitmaps are in use. Fails
    /// with `CorruptLayout` when the geometry does not fit.
    pub fn create_new(medium: M, fs_size: u32, block_size: u32, bytes_per_inode: u32) -> (r: Result<Self, FsError>)
        ensures
            match r {
                Ok(md) => {
                    &&& layout_fits(fs_size, block_size, bytes_per_inode)
                    &&& md.wf()
                    &&& md.super_block.has_geometry(fs_size, block_size, bytes_per_inode)
                    &&& md.super_block.free_inodes == md.super_block.total_inodes
                    &&& md.super_block.free_blocks == md.super_block.total_blocks
                        - md.super_block.inode_start_block
                    &&& md.inode_bitmap@ == Seq::new(
                        md.super_block.total_inodes as nat,
                        |i: int| false,
                    )
                    &&& md.block_bitmap@ == Seq::new(
                        md.super_block.total_blocks as nat,
                        |i: int| i < md.super_block.inode_start_block,
                    )
                    &&& md.medium.contents() == with_metadata(medium.contents(), md)
                },
                Err(e) => if layout_fits(fs_size, block_size, bytes_per_inode) {
                    e == FsError::IoError
                } else {
                    e == FsError::CorruptLayout
                },
            },
    {
        let mut medium = medium;
        if !SuperBlock::geometry_is_valid(fs_size, block_size, bytes_per_inode) {
            return Err(FsError::CorruptLayout);
        }
        let mut super_block = SuperBlock::create_new(fs_size, block_size, bytes_per_inode);
        let start = super_block.get_inode_start_block();
        let total_blocks = super_block.get_total_blocks();
        if start > total_blocks {
            return Err(FsError::CorruptLayout);
        }
        let inode_bitmap = InodeBitmap::new(super_block.get_total_inodes());
        let mut block_bitmap = BlockBitmap::new(total_blocks);
        // The superblock's block and the blocks of both bitmaps come first.
        let mut b: usize = 0;
        while b < start
            invariant
                b <= start <= total_blocks,
                total_blocks == super_block.total_blocks,
                block_bitmap.wf(),
                block_bitmap@ == Seq::new(total_blocks as nat, |i: int| i < b),
            decreases start - b,
        {
            block_bitmap.set(b);
            b = b + 1;
            assert(block_bitmap@ =~= Seq::new(total_blocks as nat, |i: int| i < b));
        }
        super_block.free_blocks = (total_blocks - start) as u16;
        super_block.persist(&mut medium)?;
        inode_bitmap.persist(&mut medium, &super_block)?;
        block_bitmap.persist(&mut medium, &super_block)?;
        Ok(fs_metadata { super_block, inode_bitmap, block_bitmap, medium })
    }
}

impl<M: Medium> fs_metadata<M> {
    /// Loads the metadata of the filesystem on `medium`: the superblock,
    /// then both bitmaps, whose place and size the superblock gives.
    pub fn fetch(medium: M) -> (r: Result<Self, FsError>)
        ensures
            match r {
                Ok(md) => {
                    let sb = md.super_block;
                    &&& md.wf()
                    &&& md.medium == medium
                    &&& sb == decode_super_block(medium.contents())
                    &&& md.inode_bitmap.raw() == rebuilt_raw(
                        block_range(medium.contents(), 1, sb.inode_bitmap_block_count as nat, sb.block_size()),
                        sb.total_inodes as nat,
                    )
                    &&& md.block_bitmap.raw() == rebuilt_raw(
                        block_range(
                            medium.contents(),
                            block_bitmap_base(sb),
                            sb.block_bitmap_block_count as nat,
                            sb.block_size(),
                        ),
                        sb.total_blocks as nat,
                    )
                },
                Err(e) => e == FsError::IoError || (e == FsError::CorruptLayout && SUPER_BLOCK_SIZE
                    <= medium.contents().len() && !decode_super_block(medium.contents()).wf()),
            },
    {
        let super_block = SuperBlock::deserialize(&medium)?;
        let inode_bitmap = InodeBitmap::fetch(&medium, &super_block)?;
        let block_bitmap = BlockBitmap::fetch(&medium, &super_block)?;
        Ok(fs_metadata { super_block, inode_bitmap, block_bitmap, medium })
    }

    /// Writes the superblock.
    pub fn persist_super_block(&mut self) -> (r: Result<(), FsError>)
        ensures
            final(self).same_but_medium(old(self)),
            r is Ok ==> final(self).medium.contents() == overwrite(
                old(self).medium.contents(),
                SUPER_BLOCK_FILE_OFFSET as int,
                old(self).super_block.spec_bytes(),
            ),
            r is Err ==> r == Err::<(), FsError>(FsError::IoError),
    {
        self.super_block.persist(&mut self.medium)
    }

    /// Number of blocks.
    pub fn super_block_get_total_blocks(&self) -> (r: usize)
        ensures
            r == self.super_block.total_blocks,
    {
        self.super_block.get_total_blocks()
    }

    /// First block of the inode table.
    pub fn super_block_get_inode_start_block(&self) -> (r: usize)
        ensures
            r == self.super_block.inode_start_block,
    {
        self.super_block.get_inode_start_block()
    }

    /// Block size in bytes.
    pub fn super_block_get_block_size(&self) -> (r: usize)
        requires
            self.wf(),
        ensures
            r == self.super_block.block_size(),
    {
        self.super_block.get_block_size()
    }

    /// Writes the superblock, whose free-inode count follows the inode
    /// bitmap, then the inode bitmap.
    pub fn persist_inode_bitmap(&mut self) -> (r: Result<(), FsError>)
        requires
            old(self).wf(),
        ensures
            final(self).same_but_medium(old(self)),
            r is Ok ==> final(self).medium.contents() == overwrite(
                overwrite(
                    old(self).medium.contents(),
                    SUPER_BLOCK_FILE_OFFSET as int,
                    old(self).super_block.spec_bytes(),
                ),
                old(self).super_block.block_size() as int,
                bitmap_image(
                    old(self).inode_bitmap.raw(),
                    old(self).super_block.inode_bitmap_block_count as nat,
                    old(self).super_block.block_size(),
                ),
            ),
            r is Err ==> r == Err::<(), FsError>(FsError::IoError),
    {
        self.super_block.persist(&mut self.medium)?;
        self.inode_bitmap.persist(&mut self.medium, &self.super_block)
    }

    /// Writes `inode` at its place in the inode table.
    pub fn persist_inode(&mut self, inode: &Inode) -> (r: Result<(), FsError>)
        requires
            old(self).wf(),
        ensures
            final(self).same_but_medium(old(self)),
            r is Ok ==> final(self).medium.contents() == overwrite(
                old(self).medium.contents(),
                inode_offset(old(self).super_block, inode.inode_number),
                inode.spec_bytes(),
            ),
            r is Err ==> r == Err::<(), FsError>(FsError::IoError),
    {
        inode.persist(&mut self.medium, &self.super_block)
    }

    /// Marks inode `inode` in use; the free-inode count drops by one when it
    /// was free.
    pub fn set_inode_in_bitmap(&mut self, inode: u16)
        requires
            old(self).wf(),
            inode < old(self).super_block.total_inodes,
        ensures
            final(self).wf(),
            final(self).inode_bitmap@ == old(self).inode_bitmap@.update(inode as int, true),
            final(self).super_block == (SuperBlock {
                free_inodes: if !old(self).inode_bitmap@[inode as int]
                    && old(self).super_block.free_inodes > 0 {
                    (old(self).super_block.free_inodes - 1) as u16
                } else {
                    old(self).super_block.free_inodes
                },
                ..old(self).super_block
            }),
            final(self).block_bitmap == old(self).block_bitmap,
            final(self).medium == old(self).medium,
    {
        let was_used = self.inode_bitmap.get(inode as usize);
        self.inode_bitmap.set(inode as usize);
        if !was_used && self.super_block.free_inodes > 0 {
            self.super_block.free_inodes = self.super_block.free_inodes - 1;
        }
    }

    /// Writes the block bitmap.
    pub fn persist_block_bitmap(&mut self) -> (r: Result<(), FsError>)
        requires
            old(self).wf(),
        ensures
            final(self).same_but_medium(old(self)),
            r is Ok ==> final(self).medium.contents() == overwrite(
                old(self).medium.contents(),
                (block_bitmap_base(old(self).super_block) * old(self).super_block.block_size()) as int,
                bitmap_image(
                    old(self).block_bitmap.raw(),
                    old(self).super_block.block_bitmap_block_count as nat,
                    old(self).super_block.block_size(),
                ),
            ),
            r is Err ==> r == Err::<(), FsError>(FsError::IoError),
    {
        self.block_bitmap.persist(&mut self.medium, &self.super_block)
    }

    /// Whether every inode is in use.
    pub fn is_inode_bitmap_full(&self) -> (r: bool)
        ensures
            r == is_all_set(self.inode_bitmap@),
    {
        self.inode_bitmap.is_full()
    }

    /// The lowest free inode number, if any.
    pub fn inode_find_first_free(&self) -> (r: Option<usize>)
        ensures
            match r {
                Some(i) => is_lowest_free(self.inode_bitmap@, i as int),
                None => is_all_set(self.inode_bitmap@),
            },
    {
        self.inode_bitmap.find_first_free()
    }

    /// Reads inode `inode_number` back from the inode table. Fails with
    /// `NotFound` when the inode is not in use.
    pub fn load_inode(&self, inode_number: u16) -> (r: Result<Inode, FsError>)
        requires
            self.wf(),
        ensures
            ({
                let off = inode_offset(self.super_block, inode_number);
                let rec = self.medium.contents().subrange(off, off + INODE_SIZE);
                match r {
                    Ok(inode) => {
                        &&& inode_number < self.super_block.total_inodes
                        &&& self.inode_bitmap@[inode_number as int]
                        &&& off + INODE_SIZE <= self.medium.contents().len()
                        &&& record_is_valid(rec)
                        &&& inode.decoded_from(rec)
                    },
                    Err(e) => if inode_number >= self.super_block.total_inodes
                        || !self.inode_bitmap@[inode_number as int] {
                        e == FsError::NotFound
                    } else {
                        e == FsError::IoError || (e == FsError::CorruptLayout && off + INODE_SIZE
                            <= self.medium.contents().len() && !record_is_valid(rec))
                    },
                }
            }),
    {
        if inode_number as usize >= self.super_block.get_total_inodes()
            || !self.inode_bitmap.get(inode_number as usize) {
            return Err(FsError::NotFound);
        }
        Inode::load(&self.medium, inode_number, &self.super_block)
    }
}

} // verus!
