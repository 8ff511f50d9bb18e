//! What the inode bitmap and the block bitmap share: their on-disk image and
//! how it is written and read back.
//!
//! A bitmap of `n` bits is packed into `ceil(n / 8)` bytes and stored in
//! `count` consecutive blocks from a base block; the last block is padded
//! with zeros. Reading it back copies whole blocks and, from the last one,
//! only the bytes that still hold bits.
use vstd::prelude::*;
use crate::bits::{Bits, bits_of, raw_of, packed, byte_len, unpack_bits, raw_bytes, zeroed_bits, store_raw_byte, MAX_BITS};
use crate::block::{Block, BlockDataType};
use crate::error::FsError;
use crate::medium::{Medium, overwrite, lemma_overwrite_append};

verus! {

/// The `count * block_size` bytes that store the packed bytes `raw`:
/// `raw` cut off or padded with zeros.
pub open spec fn bitmap_image(raw: Seq<u8>, count: nat, block_size: nat) -> Seq<u8> {
    Seq::new(count * block_size, |i: int| if i < raw.len() { raw[i] } else { 0u8 })
}

/// The packed bytes of an `n`-bit bitmap rebuilt from its stored image.
pub open spec fn rebuilt_raw(image: Seq<u8>, n: nat) -> Seq<u8> {
    Seq::new(byte_len(n), |j: int| if j < image.len() { image[j] } else { 0u8 })
}

/// The bytes from block `base` through block `base + count - 1` of `disk`.
pub open spec fn block_range(disk: Seq<u8>, base: nat, count: nat, block_size: nat) -> Seq<u8> {
    disk.subrange((base * block_size) as int, (base * block_size + count * block_size) as int)
}

/// Splits the packed bytes `raw` into `count` blocks of `block_size` bytes,
/// numbered from `first_block`, the last one padded with zeros.
pub fn serialize_bitmap(
    raw: &Vec<u8>,
    first_block: u16,
    count: usize,
    block_size: usize,
    block_type: BlockDataType,
) -> (r: Vec<Block>)
    requires
        first_block + count <= u16::MAX,
        count * block_size <= usize::MAX,
    ensures
        r@.len() == count,
        forall|i: int|
            0 <= i < count ==> {
                &&& (#[trigger] r@[i]).block_number == first_block + i
                &&& r@[i].block_type == block_type
                &&& r@[i].data@ == bitmap_image(raw@, count as nat, block_size as nat).subrange(
                    i * block_size,
                    (i + 1) * block_size,
                )
            },
{
    let ghost image = bitmap_image(raw@, count as nat, block_size as nat);
    let mut blocks: Vec<Block> = Vec::new();
    let mut i: usize = 0;
    while i < count
        invariant
            i <= count,
            first_block + count <= u16::MAX,
            count * block_size <= usize::MAX,
            image == bitmap_image(raw@, count as nat, block_size as nat),
            blocks@.len() == i,
            forall|k: int|
                0 <= k < i ==> {
                    &&& (#[trigger] blocks@[k]).block_number == first_block + k
                    &&& blocks@[k].block_type == block_type
                    &&& blocks@[k].data@ == image.subrange(k * block_size, (k + 1) * block_size)
                },
        decreases count - i,
    {
        proof {
            vstd::arithmetic::mul::lemma_mul_inequality(i as int + 1, count as int, block_size as int);
            vstd::arithmetic::mul::lemma_mul_is_distributive_add_other_way(block_size as int, i as int, 1);
        }
        let start = i * block_size;
        let mut data: Vec<u8> = Vec::new();
        let mut j: usize = 0;
        while j < block_size
            invariant
                j <= block_size,
                count * block_size <= usize::MAX,
                start == i * block_size,
                start + block_size <= count * block_size,
                image == bitmap_image(raw@, count as nat, block_size as nat),
                data@ == image.subrange(start as int, start + j),
            decreases block_size - j,
        {
            let byte = if start + j < raw.len() {
                raw[start + j]
            } else {
                0u8
            };
            data.push(byte);
            j = j + 1;
            assert(data@ =~= image.subrange(start as int, start + j));
        }
        blocks.push(Block { block_number: first_block + i as u16, data, block_type });
        i = i + 1;
    }
    blocks
}

/// Writes the bitmap whose packed bytes are those of `bits` into `count`
/// blocks of `block_size` bytes from block `base_block`.
pub fn persist_bitmap<M: Medium>(
    bits: &Bits,
    medium: &mut M,
    base_block: u16,
    count: usize,
    block_size: usize,
    block_type: BlockDataType,
) -> (r: Result<(), FsError>)
    requires
        base_block + count <= u16::MAX,
        count * block_size <= usize::MAX,
        block_size <= u32::MAX,
    ensures
        r is Ok ==> final(medium).contents() == overwrite(
            old(medium).contents(),
            base_block * block_size,
            bitmap_image(raw_of(*bits), count as nat, block_size as nat),
        ),
        r is Err ==> r == Err::<(), FsError>(FsError::IoError),
{
    let raw = raw_bytes(bits);
    let blocks = serialize_bitmap(&raw, base_block, count, block_size, block_type);
    let ghost image = bitmap_image(raw@, count as nat, block_size as nat);
    let ghost start = base_block * block_size;
    assert(overwrite(old(medium).contents(), start, image.subrange(0, 0)) =~= old(medium).contents());
    let mut i: usize = 0;
    while i < count
        invariant
            i <= count,
            blocks@.len() == count,
            base_block + count <= u16::MAX,
            count * block_size <= usize::MAX,
            block_size <= u32::MAX,
            start == base_block * block_size,
            image.len() == count * block_size,
            forall|k: int|
                0 <= k < count ==> {
                    &&& (#[trigger] blocks@[k]).block_number == base_block + k
                    &&& blocks@[k].data@ == image.subrange(k * block_size, (k + 1) * block_size)
                },
            medium.contents() == overwrite(
                old(medium).contents(),
                start,
                image.subrange(0, i * block_size),
            ),
        decreases count - i,
    {
        proof {
            vstd::arithmetic::mul::lemma_mul_inequality(i as int + 1, count as int, block_size as int);
            vstd::arithmetic::mul::lemma_mul_is_distributive_add_other_way(block_size as int, i as int, 1);
            vstd::arithmetic::mul::lemma_mul_is_distributive_add_other_way(block_size as int, base_block as int, i as int);
        }
        let block = &blocks[i];
        assert(block.block_number as int * block_size as int <= 65535 * 4294967295) by (nonlinear_arith)
            requires
                block.block_number <= 65535,
                block_size <= 4294967295,
        ;
        let offset = block.block_number as u64 * block_size as u64;
        medium.write_all(offset, block.data.len(), block.data.as_slice())?;
        proof {
            lemma_overwrite_append(
                old(medium).contents(),
                start,
                image.subrange(0, i * block_size),
                image.subrange(i * block_size, (i + 1) * block_size),
            );
            assert(image.subrange(0, i * block_size) + image.subrange(i * block_size, (i + 1) * block_size)
                =~= image.subrange(0, (i + 1) * block_size));
        }
        i = i + 1;
    }
    assert(image.subrange(0, count * block_size) =~= image);
    Ok(())
}

/// Rebuilds an `n`-bit bitmap from its stored image: every byte of the image
/// that still holds bits is copied, the rest of the image is ignored.
pub fn deserialize_bitmap(image: &Vec<u8>, n: usize) -> (r: Bits)
    requires
        n <= MAX_BITS,
    ensures
        packed(r),
        bits_of(r).len() == n,
        raw_of(r) == rebuilt_raw(image@, n as nat),
{
    let mut bits = zeroed_bits(n);
    let byte_count = (n + 7) / 8;
    let limit = if byte_count < image.len() {
        byte_count
    } else {
        image.len()
    };
    let mut j: usize = 0;
    while j < limit
        invariant
            j <= limit,
            limit <= byte_count,
            limit <= image@.len(),
            byte_count == byte_len(n as nat),
            packed(bits),
            bits_of(bits).len() == n,
            raw_of(bits) == Seq::new(
                byte_count as nat,
                |k: int| if k < j { image@[k] } else { 0u8 },
            ),
        decreases limit - j,
    {
        store_raw_byte(&mut bits, j, image[j]);
        j = j + 1;
        assert(raw_of(bits) =~= Seq::new(
            byte_count as nat,
            |k: int| if k < j { image@[k] } else { 0u8 },
        ));
    }
    assert(raw_of(bits) =~= rebuilt_raw(image@, n as nat));
    bits
}

/// Reads the `count` blocks of `block_size` bytes from block `base_block` and
/// rebuilds the `n`-bit bitmap they store.
pub fn fetch_bitmap<M: Medium>(
    medium: &M,
    n: usize,
    base_block: u16,
    count: usize,
    block_size: usize,
) -> (r: Result<Bits, FsError>)
    requires
        n <= MAX_BITS,
        count * block_size <= usize::MAX,
        block_size <= u32::MAX,
    ensures
        match r {
            Ok(b) => {
                &&& packed(b)
                &&& bits_of(b).len() == n
                &&& base_block * block_size + count * block_size <= medium.contents().len()
                &&& raw_of(b) == rebuilt_raw(
                    block_range(medium.contents(), base_block as nat, count as nat, block_size as nat),
                    n as nat,
                )
            },
            Err(e) => e == FsError::IoError,
        },
{
    let len = count * block_size;
    assert(base_block as int * block_size as int <= 65535 * 4294967295) by (nonlinear_arith)
        requires
            base_block <= 65535,
            block_size <= 4294967295,
    ;
    let offset = base_block as u64 * block_size as u64;
    let mut image = vec![0u8; len];
    medium.read_all(offset, len, &mut image)?;
    Ok(deserialize_bitmap(&image, n))
}

/// Writing a bitmap's image and rebuilding the bitmap from the same blocks
/// gives back its packed bytes and its bits, whether or not the bit count
/// fills the blocks exactly, whenever the blocks can hold the packed bytes.
pub proof fn lemma_bitmap_round_trip(
    bits: Seq<bool>,
    raw: Seq<u8>,
    disk: Seq<u8>,
    base: nat,
    count: nat,
    block_size: nat,
)
    requires
        raw.len() == byte_len(bits.len()),
        bits == unpack_bits(raw, bits.len()),
        raw.len() <= count * block_size,
    ensures
        ({
            let stored = block_range(
                overwrite(disk, (base * block_size) as int, bitmap_image(raw, count, block_size)),
                base,
                count,
                block_size,
            );
            rebuilt_raw(stored, bits.len()) == raw && unpack_bits(
                rebuilt_raw(stored, bits.len()),
                bits.len(),
            ) == bits
        }),
{
    let image = bitmap_image(raw, count, block_size);
    let written = overwrite(disk, (base * block_size) as int, image);
    let stored = block_range(written, base, count, block_size);
    if raw.len() > 0 {
        assert(image.len() == count * block_size);
        assert(written.len() >= base * block_size + count * block_size);
        assert(stored =~= image);
    }
    assert(rebuilt_raw(stored, bits.len()) =~= raw);
}

} // verus!
