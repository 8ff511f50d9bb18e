//! The superblock: the filesystem's geometry and format version, kept at
//! the start of block 0.
use vstd::prelude::*;
use vstd::arithmetic::power2::{pow2, lemma_pow2_pos};
use vstd::bits::{lemma_u64_shl_is_mul, lemma_u64_pow2_no_overflow, lemma_u32_shl_is_mul, lemma_u32_pow2_no_overflow, lemma_usize_shl_is_mul, lemma_usize_pow2_no_overflow};
use crate::block::{Block, BlockDataType};
use crate::bytes::{le16, from_le16, read_le16, push_le16, lemma_le16_round_trip};
use crate::error::FsError;
use crate::medium::{Medium, overwrite};
use crate::util::{
    get_latest_version, is_supported_version, is_valid_version, latest_version, INODE_SIZE,
    INODE_SIZE_LOG, SUPER_BLOCK_FILE_OFFSET, SUPER_BLOCK_SIZE,
};

verus! {

/// Length of the encoded superblock record, in bytes.
pub const SUPER_BLOCK_RECORD_LEN: usize = 19;

/// The filesystem's geometry and format version.
#[derive(Debug, Clone, Copy)]
pub struct SuperBlock {
    pub version: [u8; 3],
    pub total_inodes: u16,
    pub total_blocks: u16,
    pub free_inodes: u16,
    pub free_blocks: u16,
    pub inode_size_log: u8,
    pub block_size_log: u8,
    pub inode_bitmap_block_count: u8,
    pub block_bitmap_block_count: u8,
    pub inode_start_block: u16,
    pub total_inode_blocks: u16,
}

/// `x` is a power of two that a `u32` holds, with exponent `log`.
pub open spec fn is_pow2_with_log(x: u32, log: nat) -> bool {
    log < 32 && pow2(log) == x
}

/// `x` is a power of two that a `u32` holds.
pub open spec fn is_pow2(x: u32) -> bool {
    exists|log: nat| is_pow2_with_log(x, log)
}

/// The larger of 1 and `x`.
pub open spec fn at_least_one(x: int) -> int {
    if x < 1 {
        1
    } else {
        x
    }
}

/// Inodes of a filesystem of `fs_size` bytes with one inode per `bytes_per_inode` bytes.
pub open spec fn derived_total_inodes(fs_size: u32, bytes_per_inode: u32) -> int {
    fs_size as int / bytes_per_inode as int
}

/// Blocks of a filesystem of `fs_size` bytes.
pub open spec fn derived_total_blocks(fs_size: u32, block_size: u32) -> int {
    fs_size as int / block_size as int
}

/// Blocks given to a bitmap of `bits` bits: `bits / 8 / block_size`, and at least one.
pub open spec fn bitmap_blocks(bits: int, block_size: u32) -> int {
    at_least_one(bits / 8 / block_size as int)
}

/// Blocks that `inodes` inode records fill.
pub open spec fn inode_table_blocks(inodes: int, block_size: u32) -> int {
    inodes * INODE_SIZE as int / block_size as int
}

/// The three creation parameters give a geometry that the superblock's
/// fields can hold: the block size is a power of two large enough for the
/// superblock record, `bytes_per_inode` is not zero, and every derived count
/// fits its field.
pub open spec fn geometry_fits(fs_size: u32, block_size: u32, bytes_per_inode: u32) -> bool {
    let ti = derived_total_inodes(fs_size, bytes_per_inode);
    let tb = derived_total_blocks(fs_size, block_size);
    &&& is_pow2(block_size)
    &&& SUPER_BLOCK_RECORD_LEN <= block_size
    &&& bytes_per_inode > 0
    &&& ti <= u16::MAX
    &&& tb <= u16::MAX
    &&& bitmap_blocks(ti, block_size) <= u8::MAX
    &&& bitmap_blocks(tb, block_size) <= u8::MAX
    &&& inode_table_blocks(ti, block_size) <= u16::MAX
    &&& bitmap_blocks(ti, block_size) * block_size <= usize::MAX
    &&& bitmap_blocks(tb, block_size) * block_size <= usize::MAX
}

/// The superblock decoded from the first bytes of `b`, every field at its
/// fixed offset, little-endian.
pub open spec fn decode_super_block(b: Seq<u8>) -> SuperBlock {
    SuperBlock {
        version: [b[0], b[1], b[2]],
        total_inodes: from_le16(b, 3) as u16,
        total_blocks: from_le16(b, 5) as u16,
        free_inodes: from_le16(b, 7) as u16,
        free_blocks: from_le16(b, 9) as u16,
        inode_size_log: b[11],
        block_size_log: b[12],
        inode_bitmap_block_count: b[13],
        block_bitmap_block_count: b[14],
        inode_start_block: from_le16(b, 15) as u16,
        total_inode_blocks: from_le16(b, 17) as u16,
    }
}

impl SuperBlock {
    /// The fields are consistent: a supported version, the fixed inode size,
    /// a block size that a `u32` holds and block 0 can hold the record in, bitmaps of at least one block each,
    /// an inode table that starts right after the superblock and the two
    /// bitmaps, and bitmaps whose blocks fit in memory.
    pub open spec fn wf(self) -> bool {
        &&& is_supported_version(self.version@)
        &&& self.inode_size_log == INODE_SIZE_LOG
        &&& self.block_size_log < 32
        &&& SUPER_BLOCK_RECORD_LEN <= self.block_size()
        &&& self.inode_bitmap_block_count >= 1
        &&& self.block_bitmap_block_count >= 1
        &&& self.inode_start_block == 1 + self.inode_bitmap_block_count
            + self.block_bitmap_block_count
        &&& self.inode_bitmap_block_count * self.block_size() <= usize::MAX
        &&& self.block_bitmap_block_count * self.block_size() <= usize::MAX
    }

    /// Every field but the two free counters is what a new filesystem of
    /// `fs_size` bytes, with blocks of `block_size` bytes and one inode per
    /// `bytes_per_inode` bytes, gets.
    pub open spec fn has_geometry(self, fs_size: u32, block_size: u32, bytes_per_inode: u32) -> bool {
        &&& self.version == latest_version()
        &&& self.total_inodes == derived_total_inodes(fs_size, bytes_per_inode)
        &&& self.total_blocks == derived_total_blocks(fs_size, block_size)
        &&& self.inode_size_log == INODE_SIZE_LOG
        &&& self.block_size() == block_size
        &&& self.inode_bitmap_block_count == bitmap_blocks(self.total_inodes as int, block_size)
        &&& self.block_bitmap_block_count == bitmap_blocks(self.total_blocks as int, block_size)
        &&& self.inode_start_block == 1 + self.inode_bitmap_block_count
            + self.block_bitmap_block_count
        &&& self.total_inode_blocks == inode_table_blocks(self.total_inodes as int, block_size)
    }

    /// Block size in bytes.
    pub open spec fn block_size(self) -> nat {
        pow2(self.block_size_log as nat)
    }

    /// The record as written on disk.
    pub open spec fn spec_bytes(self) -> Seq<u8> {
        self.version@ + le16(self.total_inodes) + le16(self.total_blocks) + le16(self.free_inodes)
            + le16(self.free_blocks) + seq![
            self.inode_size_log,
            self.block_size_log,
            self.inode_bitmap_block_count,
            self.block_bitmap_block_count,
        ] + le16(self.inode_start_block) + le16(self.total_inode_blocks)
    }
}

proof fn lemma_pow2_nonzero(x: u32)
    requires
        is_pow2(x),
    ensures
        x > 0,
{
    let log = choose|log: nat| is_pow2_with_log(x, log);
    lemma_pow2_pos(log);
}

/// The exponent of `x` when `x` is a power of two.
pub fn exact_log2(x: u32) -> (r: Option<u8>)
    ensures
        match r {
            Some(log) => is_pow2_with_log(x, log as nat),
            None => !is_pow2(x),
        },
{
    let mut k: u32 = 0;
    while k < 32
        invariant
            k <= 32,
            forall|j: nat| j < k ==> pow2(j) != x,
        decreases 32 - k,
    {
        proof {
            lemma_u32_pow2_no_overflow(k as nat);
            lemma_u32_shl_is_mul(1u32, k);
        }
        if (1u32 << k) == x {
            return Some(k as u8);
        }
        k = k + 1;
    }
    proof {
        if is_pow2(x) {
            let log = choose|log: nat| is_pow2_with_log(x, log);
            assert(pow2(log) != x);
        }
    }
    None
}

impl SuperBlock {
    /// Whether `create_new` can be called with these parameters.
    pub fn geometry_is_valid(fs_size: u32, block_size: u32, bytes_per_inode: u32) -> (r: bool)
        ensures
            r == geometry_fits(fs_size, block_size, bytes_per_inode),
    {
        if exact_log2(block_size).is_none() || bytes_per_inode == 0
            || block_size < SUPER_BLOCK_RECORD_LEN as u32 {
            return false;
        }
        proof {
            lemma_pow2_nonzero(block_size);
        }
        let ti = fs_size / bytes_per_inode;
        let tb = fs_size / block_size;
        if ti > 0xffff || tb > 0xffff {
            return false;
        }
        let raw_ibc = ti / 8 / block_size;
        let raw_bbc = tb / 8 / block_size;
        let ibc = if raw_ibc < 1 { 1 } else { raw_ibc };
        let bbc = if raw_bbc < 1 { 1 } else { raw_bbc };
        let table = (ti as u64 * 256) / block_size as u64;
        if ibc > 0xff || bbc > 0xff || table > 0xffff {
            return false;
        }
        assert(ibc as int * block_size as int <= 255 * 4294967295 && bbc as int * block_size as int
            <= 255 * 4294967295) by (nonlinear_arith)
            requires
                ibc <= 255,
                bbc <= 255,
                block_size <= 4294967295,
        ;
        (ibc as u64) * (block_size as u64) <= usize::MAX as u64 && (bbc as u64) * (block_size as u64)
            <= usize::MAX as u64
    }

    /// The superblock of a new filesystem of `fs_size` bytes, with blocks of
    /// `block_size` bytes and one inode per `bytes_per_inode` bytes.
    pub fn create_new(fs_size: u32, block_size: u32, bytes_per_inode: u32) -> (r: SuperBlock)
        requires
            geometry_fits(fs_size, block_size, bytes_per_inode),
        ensures
            r.wf(),
            r.has_geometry(fs_size, block_size, bytes_per_inode),
            r.free_inodes == r.total_inodes,
            r.free_blocks == r.total_blocks,
    {
        let log = match exact_log2(block_size) {
            Some(log) => log,
            None => {
                proof {
                    assert(false);
                }
                0
            },
        };
        proof {
            lemma_pow2_nonzero(block_size);
        }
        let ti = fs_size / bytes_per_inode;
        let tb = fs_size / block_size;
        let inode_block_count = (ti as u64 * 256) / block_size as u64;
        let raw_ibc = ti / 8 / block_size;
        let raw_bbc = tb / 8 / block_size;
        let ibc: u8 = if raw_ibc < 1 { 1 } else { raw_ibc as u8 };
        let bbc: u8 = if raw_bbc < 1 { 1 } else { raw_bbc as u8 };
        let version = get_latest_version();
        SuperBlock {
            version,
            total_inodes: ti as u16,
            total_blocks: tb as u16,
            free_inodes: ti as u16,
            free_blocks: tb as u16,
            inode_size_log: INODE_SIZE_LOG,
            block_size_log: log,
            inode_bitmap_block_count: ibc,
            block_bitmap_block_count: bbc,
            inode_start_block: 1 + ibc as u16 + bbc as u16,
            total_inode_blocks: inode_block_count as u16,
        }
    }
}

impl SuperBlock {
    /// The record in its on-disk form, as block 0.
    pub fn serialize(&self) -> (r: Block)
        ensures
            r.block_number == 0,
            r.data@ == self.spec_bytes(),
            r.data@.len() == SUPER_BLOCK_RECORD_LEN,
            r.block_type == BlockDataType::SuperBlock,
    {
        let mut buffer: Vec<u8> = Vec::new();
        buffer.push(self.version[0]);
        buffer.push(self.version[1]);
        buffer.push(self.version[2]);
        assert(buffer@ =~= self.version@);
        push_le16(&mut buffer, self.total_inodes);
        push_le16(&mut buffer, self.total_blocks);
        push_le16(&mut buffer, self.free_inodes);
        push_le16(&mut buffer, self.free_blocks);
        let ghost before_logs = buffer@;
        buffer.push(self.inode_size_log);
        buffer.push(self.block_size_log);
        buffer.push(self.inode_bitmap_block_count);
        buffer.push(self.block_bitmap_block_count);
        assert(buffer@ =~= before_logs + seq![
            self.inode_size_log,
            self.block_size_log,
            self.inode_bitmap_block_count,
            self.block_bitmap_block_count,
        ]);
        push_le16(&mut buffer, self.inode_start_block);
        push_le16(&mut buffer, self.total_inode_blocks);
        Block { block_number: 0, data: buffer, block_type: BlockDataType::SuperBlock }
    }

    /// Writes the record at the start of the medium.
    pub fn persist<M: Medium>(&self, medium: &mut M) -> (r: Result<(), FsError>)
        ensures
            r is Ok ==> final(medium).contents() == overwrite(
                old(medium).contents(),
                SUPER_BLOCK_FILE_OFFSET as int,
                self.spec_bytes(),
            ),
            r is Err ==> r == Err::<(), FsError>(FsError::IoError),
    {
        let block = self.serialize();
        medium.write_all(SUPER_BLOCK_FILE_OFFSET, block.data.len(), block.data.as_slice())
    }

    /// Decodes a superblock from the bytes of `block`. Fails with
    /// `CorruptLayout` when the block is too short to hold the record or the
    /// decoded fields are inconsistent.
    pub fn deserialize_block(block: Block) -> (r: Result<SuperBlock, FsError>)
        ensures
            block.data@.len() < SUPER_BLOCK_RECORD_LEN ==> r == Err::<SuperBlock, FsError>(
                FsError::CorruptLayout,
            ),
            block.data@.len() >= SUPER_BLOCK_RECORD_LEN ==> r == if decode_super_block(
                block.data@,
            ).wf() {
                Ok::<SuperBlock, FsError>(decode_super_block(block.data@))
            } else {
                Err(FsError::CorruptLayout)
            },
    {
        let bytes = &block.data;
        if bytes.len() < SUPER_BLOCK_RECORD_LEN {
            return Err(FsError::CorruptLayout);
        }
        let sb = SuperBlock {
            version: [bytes[0], bytes[1], bytes[2]],
            total_inodes: read_le16(bytes, 3),
            total_blocks: read_le16(bytes, 5),
            free_inodes: read_le16(bytes, 7),
            free_blocks: read_le16(bytes, 9),
            inode_size_log: bytes[11],
            block_size_log: bytes[12],
            inode_bitmap_block_count: bytes[13],
            block_bitmap_block_count: bytes[14],
            inode_start_block: read_le16(bytes, 15),
            total_inode_blocks: read_le16(bytes, 17),
        };
        assert(sb == decode_super_block(bytes@));
        if !is_valid_version(&sb.version) || sb.inode_size_log != INODE_SIZE_LOG
            || sb.block_size_log >= 32 || sb.inode_bitmap_block_count < 1
            || sb.block_bitmap_block_count < 1 || sb.inode_start_block != 1
            + sb.inode_bitmap_block_count as u16 + sb.block_bitmap_block_count as u16 {
            return Err(FsError::CorruptLayout);
        }
        proof {
            lemma_u64_pow2_no_overflow(sb.block_size_log as nat);
            lemma_u64_shl_is_mul(1u64, sb.block_size_log as u64);
        }
        let block_size: u64 = 1u64 << (sb.block_size_log as u64);
        if block_size < SUPER_BLOCK_RECORD_LEN as u64 {
            return Err(FsError::CorruptLayout);
        }
        assert(pow2(sb.block_size_log as nat) <= pow2(32)) by {
            vstd::arithmetic::power2::lemma_pow2_strictly_increases(sb.block_size_log as nat, 32);
        }
        assert(pow2(32) == 4294967296) by {
            vstd::arithmetic::power2::lemma2_to64();
        }
        assert(sb.inode_bitmap_block_count as int * block_size as int <= 255 * 4294967296
            && sb.block_bitmap_block_count as int * block_size as int <= 255 * 4294967296)
            by (nonlinear_arith)
            requires
                sb.inode_bitmap_block_count <= 255,
                sb.block_bitmap_block_count <= 255,
                block_size <= 4294967296,
        ;
        if (sb.inode_bitmap_block_count as u64) * block_size > usize::MAX as u64
            || (sb.block_bitmap_block_count as u64) * block_size > usize::MAX as u64 {
            return Err(FsError::CorruptLayout);
        }
        Ok(sb)
    }

    /// Reads the superblock back from the start of the medium.
    pub fn deserialize<M: Medium>(medium: &M) -> (r: Result<SuperBlock, FsError>)
        ensures
            match r {
                Ok(sb) => {
                    &&& SUPER_BLOCK_SIZE <= medium.contents().len()
                    &&& sb == decode_super_block(medium.contents())
                    &&& sb.wf()
                },
                Err(e) => e == FsError::IoError || (e == FsError::CorruptLayout
                    && SUPER_BLOCK_SIZE <= medium.contents().len() && !decode_super_block(
                    medium.contents(),
                ).wf()),
            },
    {
        let mut block = Block::default();
        block.data = vec![0u8; SUPER_BLOCK_SIZE];
        medium.read_all(SUPER_BLOCK_FILE_OFFSET, block.data.len(), &mut block.data)?;
        let ghost read = block.data@;
        let r = SuperBlock::deserialize_block(block);
        proof {
            assert(decode_super_block(read) == decode_super_block(medium.contents()));
        }
        r
    }

    /// Number of inodes.
    pub fn get_total_inodes(&self) -> (r: usize)
        ensures
            r == self.total_inodes,
    {
        self.total_inodes as usize
    }

    /// Number of blocks.
    pub fn get_total_blocks(&self) -> (r: usize)
        ensures
            r == self.total_blocks,
    {
        self.total_blocks as usize
    }

    /// Block size in bytes.
    pub fn get_block_size(&self) -> (r: usize)
        requires
            self.block_size_log < 32,
        ensures
            r == self.block_size(),
            0 < r <= u32::MAX,
    {
        proof {
            lemma_u32_pow2_no_overflow(self.block_size_log as nat);
            lemma_usize_pow2_no_overflow(self.block_size_log as nat);
            lemma_usize_shl_is_mul(1usize, self.block_size_log as usize);
        }
        1usize << (self.block_size_log as usize)
    }

    /// Number of blocks of the inode bitmap.
    pub fn get_inode_bitmap_block_count(&self) -> (r: usize)
        ensures
            r == self.inode_bitmap_block_count,
    {
        self.inode_bitmap_block_count as usize
    }

    /// First block of the inode table.
    pub fn get_inode_start_block(&self) -> (r: usize)
        ensures
            r == self.inode_start_block,
    {
        self.inode_start_block as usize
    }

    /// Number of blocks of the block bitmap.
    pub fn get_block_bitmap_block_count(&self) -> (r: usize)
        ensures
            r == self.block_bitmap_block_count,
    {
        self.block_bitmap_block_count as usize
    }
}

/// Writing a superblock and decoding what lies at the start of the medium
/// gives back the same superblock, field for field, whatever the medium held
/// before.
pub proof fn lemma_super_block_round_trip(sb: SuperBlock, disk: Seq<u8>)
    ensures
        decode_super_block(overwrite(disk, SUPER_BLOCK_FILE_OFFSET as int, sb.spec_bytes())) == sb,
{
    let b = overwrite(disk, 0, sb.spec_bytes());
    let e = sb.spec_bytes();
    assert(e.len() == 19);
    assert(b.subrange(0, 19) =~= e);
    assert forall|i: int| 0 <= i < 19 implies b[i] == e[i] by {
        assert(b.subrange(0, 19)[i] == b[i]);
    }
    assert(b.subrange(3, 5) =~= le16(sb.total_inodes));
    assert(b.subrange(5, 7) =~= le16(sb.total_blocks));
    assert(b.subrange(7, 9) =~= le16(sb.free_inodes));
    assert(b.subrange(9, 11) =~= le16(sb.free_blocks));
    assert(b.subrange(15, 17) =~= le16(sb.inode_start_block));
    assert(b.subrange(17, 19) =~= le16(sb.total_inode_blocks));
    lemma_le16_round_trip(sb.total_inodes, b, 3);
    lemma_le16_round_trip(sb.total_blocks, b, 5);
    lemma_le16_round_trip(sb.free_inodes, b, 7);
    lemma_le16_round_trip(sb.free_blocks, b, 9);
    lemma_le16_round_trip(sb.inode_start_block, b, 15);
    lemma_le16_round_trip(sb.total_inode_blocks, b, 17);
    let d = decode_super_block(b);
    assert(d.version =~= sb.version);
}

} // verus!
