//! Blocks: the fixed-size units of on-disk storage.
use vstd::prelude::*;

verus! {

/// What a block holds. The tag tells serialization code apart; it is not
/// written to disk.
#[derive(Debug, Clone, Copy, PartialEq, Eq, Structural)]
pub enum BlockDataType {
    SuperBlock,
    InodeBitmap,
    BlockBitmap,
    InodeData,
    UserData,
    IndirectBlockPointers,
    ChildrenInodeNumbers,
    Other,
}

impl Default for BlockDataType {
    fn default() -> (r: BlockDataType)
        ensures
            r == BlockDataType::Other,
    {
        BlockDataType::Other
    }
}

/// One block: its number, its bytes and what they hold.
pub struct Block {
    pub block_number: u16,
    pub data: Vec<u8>,
    pub block_type: BlockDataType,
}

impl Default for Block {
    fn default() -> (r: Block)
        ensures
            r.block_number == 0,
            r.data@.len() == 0,
            r.block_type == BlockDataType::Other,
    {
        Block { block_number: 0, data: Vec::new(), block_type: BlockDataType::Other }
    }
}

} // verus!
