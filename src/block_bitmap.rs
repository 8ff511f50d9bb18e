//! The block bitmap: one bit per block, set when the block is in use.
use vstd::prelude::*;
use crate::bits::{Bits, bits_of, raw_of, packed, MAX_BITS, zeroed_bits, set_bit, raw_bytes};
use crate::bitmap::{bitmap_image, block_range, rebuilt_raw, fetch_bitmap, persist_bitmap};
use crate::block::BlockDataType;
use crate::error::FsError;
use crate::medium::{Medium, overwrite};
use crate::super_block::SuperBlock;
use crate::util::INODE_BITMAP_STARTING_BLOCK_NUMBER;

verus! {

/// One bit per block; `true` marks a block in use.
pub struct BlockBitmap {
    pub bitmap: Bits,
}

/// First block of the block bitmap: right after the inode bitmap.
pub open spec fn block_bitmap_base(sb: SuperBlock) -> nat {
    (INODE_BITMAP_STARTING_BLOCK_NUMBER + sb.inode_bitmap_block_count) as nat
}

impl BlockBitmap {
    /// The bits, by block number.
    pub open spec fn view(&self) -> Seq<bool> {
        bits_of(self.bitmap)
    }

    /// The packed bytes that hold the bits.
    pub open spec fn raw(&self) -> Seq<u8> {
        raw_of(self.bitmap)
    }

    /// The bits are packed from bit 0 of the first byte.
    pub open spec fn wf(&self) -> bool {
        packed(self.bitmap)
    }

    /// A bitmap of `num_blocks` free blocks.
    pub fn new(num_blocks: usize) -> (r: BlockBitmap)
        requires
            num_blocks <= MAX_BITS,
        ensures
            r.wf(),
            r@ == Seq::new(num_blocks as nat, |i: int| false),
    {
        BlockBitmap { bitmap: zeroed_bits(num_blocks) }
    }

    /// Writes the bitmap into its blocks, right after the inode bitmap.
    pub fn persist<M: Medium>(&self, medium: &mut M, super_block_ref: &SuperBlock) -> (r: Result<(), FsError>)
        requires
            super_block_ref.wf(),
        ensures
            r is Ok ==> final(medium).contents() == overwrite(
                old(medium).contents(),
                (block_bitmap_base(*super_block_ref) * super_block_ref.block_size()) as int,
                bitmap_image(
                    self.raw(),
                    super_block_ref.block_bitmap_block_count as nat,
                    super_block_ref.block_size(),
                ),
            ),
            r is Err ==> r == Err::<(), FsError>(FsError::IoError),
    {
        persist_bitmap(
            &self.bitmap,
            medium,
            1 + super_block_ref.inode_bitmap_block_count as u16,
            super_block_ref.get_block_bitmap_block_count(),
            super_block_ref.get_block_size(),
            BlockDataType::BlockBitmap,
        )
    }

    /// Reads the bitmap of `total_blocks` bits back from its blocks.
    pub fn fetch<M: Medium>(medium: &M, super_block_ref: &SuperBlock) -> (r: Result<BlockBitmap, FsError>)
        requires
            super_block_ref.wf(),
        ensures
            match r {
                Ok(b) => {
                    &&& b.wf()
                    &&& b@.len() == super_block_ref.total_blocks
                    &&& b.raw() == rebuilt_raw(
                        block_range(
                            medium.contents(),
                            block_bitmap_base(*super_block_ref),
                            super_block_ref.block_bitmap_block_count as nat,
                            super_block_ref.block_size(),
                        ),
                        super_block_ref.total_blocks as nat,
                    )
                },
                Err(e) => e == FsError::IoError,
            },
    {
        let bitmap = fetch_bitmap(
            medium,
            super_block_ref.get_total_blocks(),
            1 + super_block_ref.inode_bitmap_block_count as u16,
            super_block_ref.get_block_bitmap_block_count(),
            super_block_ref.get_block_size(),
        )?;
        Ok(BlockBitmap { bitmap })
    }

    /// The packed bytes that hold the bits.
    pub fn serialize_to_vec(&self) -> (r: Vec<u8>)
        ensures
            r@ == self.raw(),
    {
        raw_bytes(&self.bitmap)
    }

    /// Number of blocks the bitmap tracks.
    pub fn len(&self) -> (r: usize)
        ensures
            r == self@.len(),
    {
        crate::bits::bit_count(&self.bitmap)
    }

    /// Marks block `block_number` in use.
    pub fn set(&mut self, block_number: usize)
        requires
            old(self).wf(),
            block_number < old(self)@.len(),
        ensures
            final(self).wf(),
            final(self)@ == old(self)@.update(block_number as int, true),
    {
        set_bit(&mut self.bitmap, block_number, true);
    }
}

} // verus!
