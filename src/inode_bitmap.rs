//! The inode bitmap: one bit per inode, set when the inode is in use.
use vstd::prelude::*;
use crate::bits::{Bits, bits_of, raw_of, packed, MAX_BITS, zeroed_bits, set_bit, get_bit, all_set, first_zero};
use crate::bitmap::{bitmap_image, block_range, rebuilt_raw, fetch_bitmap, persist_bitmap};
use crate::block::BlockDataType;
use crate::error::FsError;
use crate::medium::{Medium, overwrite};
use crate::super_block::SuperBlock;
use crate::util::INODE_BITMAP_STARTING_BLOCK_NUMBER;

verus! {

/// `i` is the lowest index of a cleared bit.
pub open spec fn is_lowest_free(bits: Seq<bool>, i: int) -> bool {
    &&& 0 <= i < bits.len()
    &&& !bits[i]
    &&& forall|j: int| 0 <= j < i ==> #[trigger] bits[j]
}

/// Every bit is set.
pub open spec fn is_all_set(bits: Seq<bool>) -> bool {
    forall|j: int| 0 <= j < bits.len() ==> #[trigger] bits[j]
}

/// One bit per inode; `true` marks an inode in use.
pub struct InodeBitmap {
    pub bitmap: Bits,
}

impl InodeBitmap {
    /// The bits, by inode number.
    pub open spec fn view(&self) -> Seq<bool> {
        bits_of(self.bitmap)
    }

    /// The packed bytes that hold the bits.
    pub open spec fn raw(&self) -> Seq<u8> {
        raw_of(self.bitmap)
    }

    /// The bits are packed from bit 0 of the first byte.
    pub open spec fn wf(&self) -> bool {
        packed(self.bitmap)
    }

    /// A bitmap of `num_inodes` free inodes.
    pub fn new(num_inodes: usize) -> (r: InodeBitmap)
        requires
            num_inodes <= MAX_BITS,
        ensures
            r.wf(),
            r@ == Seq::new(num_inodes as nat, |i: int| false),
    {
        InodeBitmap { bitmap: zeroed_bits(num_inodes) }
    }

    /// Writes the bitmap into its blocks, from block 1.
    pub fn persist<M: Medium>(&self, medium: &mut M, super_block_ref: &SuperBlock) -> (r: Result<(), FsError>)
        requires
            super_block_ref.wf(),
        ensures
            r is Ok ==> final(medium).contents() == overwrite(
                old(medium).contents(),
                INODE_BITMAP_STARTING_BLOCK_NUMBER * super_block_ref.block_size(),
                bitmap_image(
                    self.raw(),
                    super_block_ref.inode_bitmap_block_count as nat,
                    super_block_ref.block_size(),
                ),
            ),
            r is Err ==> r == Err::<(), FsError>(FsError::IoError),
    {
        persist_bitmap(
            &self.bitmap,
            medium,
            INODE_BITMAP_STARTING_BLOCK_NUMBER as u16,
            super_block_ref.get_inode_bitmap_block_count(),
            super_block_ref.get_block_size(),
            BlockDataType::InodeBitmap,
        )
    }

    /// Reads the bitmap of `total_inodes` bits back from its blocks.
    pub fn fetch<M: Medium>(medium: &M, super_block_ref: &SuperBlock) -> (r: Result<InodeBitmap, FsError>)
        requires
            super_block_ref.wf(),
        ensures
            match r {
                Ok(b) => {
                    &&& b.wf()
                    &&& b@.len() == super_block_ref.total_inodes
                    &&& b.raw() == rebuilt_raw(
                        block_range(
                            medium.contents(),
                            INODE_BITMAP_STARTING_BLOCK_NUMBER as nat,
                            super_block_ref.inode_bitmap_block_count as nat,
                            super_block_ref.block_size(),
                        ),
                        super_block_ref.total_inodes as nat,
                    )
                },
                Err(e) => e == FsError::IoError,
            },
    {
        let bitmap = fetch_bitmap(
            medium,
            super_block_ref.get_total_inodes(),
            INODE_BITMAP_STARTING_BLOCK_NUMBER as u16,
            super_block_ref.get_inode_bitmap_block_count(),
            super_block_ref.get_block_size(),
        )?;
        Ok(InodeBitmap { bitmap })
    }

    /// Number of inodes the bitmap tracks.
    pub fn len(&self) -> (r: usize)
        ensures
            r == self@.len(),
    {
        crate::bits::bit_count(&self.bitmap)
    }

    /// Marks inode `inode_num` in use.
    pub fn set(&mut self, inode_num: usize)
        requires
            old(self).wf(),
            inode_num < old(self)@.len(),
        ensures
            final(self).wf(),
            final(self)@ == old(self)@.update(inode_num as int, true),
    {
        set_bit(&mut self.bitmap, inode_num, true);
    }

    /// Marks inode `inode_num` in use.
    pub fn allocate_inode(&mut self, inode_num: u16)
        requires
            old(self).wf(),
            inode_num < old(self)@.len(),
        ensures
            final(self).wf(),
            final(self)@ == old(self)@.update(inode_num as int, true),
    {
        self.set(inode_num as usize);
    }

    /// Whether inode `inode_num` is in use.
    pub fn get(&self, inode_num: usize) -> (r: bool)
        requires
            inode_num < self@.len(),
        ensures
            r == self@[inode_num as int],
    {
        get_bit(&self.bitmap, inode_num)
    }

    /// Whether every inode is in use.
    pub fn is_full(&self) -> (r: bool)
        ensures
            r == is_all_set(self@),
    {
        all_set(&self.bitmap)
    }

    /// The lowest free inode number, if any (first fit).
    pub fn find_first_free(&self) -> (r: Option<usize>)
        ensures
            match r {
                Some(i) => is_lowest_free(self@, i as int),
                None => is_all_set(self@),
            },
    {
        first_zero(&self.bitmap)
    }
}

} // verus!
