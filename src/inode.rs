//! Inodes: the fixed-size record of one file or directory, and its place in
//! the inode table.
//!
//! Record layout (little-endian), `INODE_SIZE` bytes:
//! `inode_number(u16) | parent(u16) | name[64] | data_blocks[32](u16) |
//! block_bitmap(4 bytes) | file_type(u8) | file_size(u32) | zeros`.
//!
//! An inode's own block bitmap has one bit per direct data-block pointer,
//! so that the whole record fits in `INODE_SIZE` bytes and every field can
//! be read back.
use vstd::prelude::*;
use vstd::utf8::{encode_utf8, valid_utf8, encode_utf8_decode_utf8};
use crate::bitmap::{deserialize_bitmap, rebuilt_raw};
use crate::block_bitmap::BlockBitmap;
use crate::bytes::{le16, le32, from_le16, from_le32, push_le16, push_le32, read_le16, read_le32, lemma_le16_round_trip, lemma_le32_round_trip};
use crate::error::FsError;
use crate::medium::{Medium, overwrite};
use crate::super_block::SuperBlock;
use crate::fs_metadata::fs_metadata;
use crate::inode_bitmap::{is_all_set, is_lowest_free};
use crate::util::{INODE_SIZE, MAX_FILE_NAME_SIZE, Path, name_text, utf8_string};

verus! {

/// Number of direct data-block pointers of an inode.
pub const DATA_BLOCK_POINTERS: usize = 32;

/// Offset of the name field in the record.
pub const NAME_OFFSET: usize = 4;

/// Offset of the data-block pointers in the record.
pub const DATA_BLOCKS_OFFSET: usize = 68;

/// Offset of the inode's block bitmap in the record.
pub const BLOCK_BITMAP_OFFSET: usize = 132;

/// Length of the inode's block bitmap in the record, in bytes.
pub const BLOCK_BITMAP_BYTES: usize = 4;

/// Offset of the file type in the record.
pub const FILE_TYPE_OFFSET: usize = 136;

/// Offset of the file size in the record.
pub const FILE_SIZE_OFFSET: usize = 137;

/// Whether an entry is a file or a directory.
#[derive(Debug, Clone, Copy, PartialEq, Eq, Structural)]
pub enum FileType {
    File,
    Directory,
}

impl Default for FileType {
    fn default() -> (r: FileType)
        ensures
            r == FileType::File,
    {
        FileType::File
    }
}

/// The byte that stands for a file type on disk.
pub open spec fn file_type_byte(t: FileType) -> u8 {
    match t {
        FileType::File => 0,
        FileType::Directory => 1,
    }
}

/// The file type that a byte stands for, if any.
pub open spec fn file_type_of_byte(b: u8) -> Option<FileType> {
    if b == 0 {
        Some(FileType::File)
    } else if b == 1 {
        Some(FileType::Directory)
    } else {
        None
    }
}

/// `b` cut off or padded with zeros to `n` bytes.
pub open spec fn fit_to(b: Seq<u8>, n: nat) -> Seq<u8> {
    Seq::new(n, |i: int| if i < b.len() { b[i] } else { 0u8 })
}

/// The bytes of the pointers `d`, each little-endian.
pub open spec fn pointer_bytes(d: Seq<u16>) -> Seq<u8> {
    Seq::new(
        2 * d.len(),
        |i: int|
            if i % 2 == 0 {
                (d[i / 2] % 256) as u8
            } else {
                (d[i / 2] / 256) as u8
            },
    )
}

/// The index of the first zero byte of `s` from `k` on, or the length of `s`.
pub open spec fn zero_index_from(s: Seq<u8>, k: int) -> int
    decreases s.len() - k,
{
    if k >= s.len() || k < 0 {
        s.len() as int
    } else if s[k] == 0 {
        k
    } else {
        zero_index_from(s, k + 1)
    }
}

/// The bytes of the name stored in a record: the name field up to its first
/// zero byte.
pub open spec fn stored_name(b: Seq<u8>) -> Seq<u8> {
    let field = b.subrange(NAME_OFFSET as int, DATA_BLOCKS_OFFSET as int);
    field.subrange(0, zero_index_from(field, 0))
}

/// A record whose name is UTF-8 text and whose file type is known.
pub open spec fn record_is_valid(b: Seq<u8>) -> bool {
    valid_utf8(stored_name(b)) && file_type_of_byte(b[FILE_TYPE_OFFSET as int]) is Some
}

/// Byte offset of inode `n` in the inode table.
pub open spec fn inode_offset(sb: SuperBlock, n: u16) -> int {
    sb.inode_start_block * sb.block_size() + INODE_SIZE * n
}

/// The metadata of one file or directory.
pub struct Inode {
    pub inode_number: u16,
    pub parent: u16,
    pub name: String,
    pub data_blocks: [u16; 32],
    pub block_bitmap: BlockBitmap,
    pub file_type: FileType,
    pub file_size: u32,
}

impl Inode {
    /// The bytes of the name.
    pub open spec fn name_bytes(&self) -> Seq<u8> {
        encode_utf8(self.name@)
    }

    /// The fields in record order, before the record is cut or padded to
    /// `INODE_SIZE` bytes.
    pub open spec fn record_fields(&self) -> Seq<u8> {
        le16(self.inode_number) + le16(self.parent) + fit_to(
            self.name_bytes(),
            MAX_FILE_NAME_SIZE as nat,
        ) + pointer_bytes(self.data_blocks@) + self.block_bitmap.raw() + seq![
            file_type_byte(self.file_type),
        ] + le32(self.file_size)
    }

    /// The record as written on disk.
    pub open spec fn spec_bytes(&self) -> Seq<u8> {
        fit_to(self.record_fields(), INODE_SIZE as nat)
    }

    /// Every field can be written and read back: a name of at most
    /// `MAX_FILE_NAME_SIZE` bytes with no zero byte, and a block bitmap of
    /// one bit per data-block pointer.
    pub open spec fn is_storable(&self) -> bool {
        &&& self.name_bytes().len() <= MAX_FILE_NAME_SIZE
        &&& forall|i: int| 0 <= i < self.name_bytes().len() ==> #[trigger] self.name_bytes()[i] != 0
        &&& self.block_bitmap.wf()
        &&& self.block_bitmap@.len() == DATA_BLOCK_POINTERS
    }

    /// This inode holds the fields decoded from the record `b`.
    pub open spec fn decoded_from(&self, b: Seq<u8>) -> bool {
        &&& self.inode_number == from_le16(b, 0)
        &&& self.parent == from_le16(b, 2)
        &&& self.name_bytes() == stored_name(b)
        &&& forall|k: int|
            0 <= k < DATA_BLOCK_POINTERS ==> #[trigger] self.data_blocks[k] == from_le16(
                b,
                DATA_BLOCKS_OFFSET + 2 * k,
            )
        &&& self.block_bitmap.wf()
        &&& self.block_bitmap@.len() == DATA_BLOCK_POINTERS
        &&& self.block_bitmap.raw() == b.subrange(
            BLOCK_BITMAP_OFFSET as int,
            (BLOCK_BITMAP_OFFSET + BLOCK_BITMAP_BYTES) as int,
        )
        &&& file_type_of_byte(b[FILE_TYPE_OFFSET as int]) == Some(self.file_type)
        &&& self.file_size == from_le32(b, FILE_SIZE_OFFSET as int)
    }
}

impl Inode {
    /// The record in its on-disk form.
    pub fn serialize(&self) -> (r: Vec<u8>)
        ensures
            r@ == self.spec_bytes(),
    {
        let mut buffer: Vec<u8> = Vec::new();
        push_le16(&mut buffer, self.inode_number);
        push_le16(&mut buffer, self.parent);
        let name_bytes = self.name.as_str().as_bytes();
        let ghost before_name = buffer@;
        let mut i: usize = 0;
        while i < MAX_FILE_NAME_SIZE
            invariant
                i <= MAX_FILE_NAME_SIZE,
                name_bytes@ == self.name_bytes(),
                buffer@ == before_name + fit_to(self.name_bytes(), MAX_FILE_NAME_SIZE as nat).subrange(0, i as int),
            decreases MAX_FILE_NAME_SIZE - i,
        {
            let byte = if i < name_bytes.len() {
                name_bytes[i]
            } else {
                0u8
            };
            buffer.push(byte);
            i = i + 1;
            assert(buffer@ =~= before_name + fit_to(self.name_bytes(), MAX_FILE_NAME_SIZE as nat).subrange(0, i as int));
        }
        assert(fit_to(self.name_bytes(), MAX_FILE_NAME_SIZE as nat).subrange(0, 64) =~= fit_to(self.name_bytes(), MAX_FILE_NAME_SIZE as nat));
        let ghost before_blocks = buffer@;
        let mut k: usize = 0;
        while k < DATA_BLOCK_POINTERS
            invariant
                k <= DATA_BLOCK_POINTERS,
                buffer@ == before_blocks + pointer_bytes(self.data_blocks@).subrange(0, 2 * k),
            decreases DATA_BLOCK_POINTERS - k,
        {
            push_le16(&mut buffer, self.data_blocks[k]);
            k = k + 1;
            assert(buffer@ =~= before_blocks + pointer_bytes(self.data_blocks@).subrange(0, 2 * k));
        }
        assert(pointer_bytes(self.data_blocks@).subrange(0, 64) =~= pointer_bytes(self.data_blocks@));
        let raw = self.block_bitmap.serialize_to_vec();
        let ghost before_bitmap = buffer@;
        let mut j: usize = 0;
        while j < raw.len()
            invariant
                j <= raw@.len(),
                buffer@ == before_bitmap + raw@.subrange(0, j as int),
            decreases raw@.len() - j,
        {
            buffer.push(raw[j]);
            j = j + 1;
            assert(buffer@ =~= before_bitmap + raw@.subrange(0, j as int));
        }
        assert(raw@.subrange(0, raw@.len() as int) =~= raw@);
        let type_byte: u8 = match self.file_type {
            FileType::File => 0,
            FileType::Directory => 1,
        };
        buffer.push(type_byte);
        push_le32(&mut buffer, self.file_size);
        assert(buffer@ =~= self.record_fields());
        let mut out: Vec<u8> = Vec::new();
        let mut n: usize = 0;
        while n < INODE_SIZE
            invariant
                n <= INODE_SIZE,
                buffer@ == self.record_fields(),
                out@ == fit_to(self.record_fields(), INODE_SIZE as nat).subrange(0, n as int),
            decreases INODE_SIZE - n,
        {
            let byte = if n < buffer.len() {
                buffer[n]
            } else {
                0u8
            };
            out.push(byte);
            n = n + 1;
            assert(out@ =~= fit_to(self.record_fields(), INODE_SIZE as nat).subrange(0, n as int));
        }
        assert(out@ =~= self.spec_bytes());
        out
    }
}

impl Inode {
    /// Writes the record at its place in the inode table.
    pub fn persist<M: Medium>(&self, medium: &mut M, super_block_ref: &SuperBlock) -> (r: Result<(), FsError>)
        requires
            super_block_ref.wf(),
        ensures
            r is Ok ==> final(medium).contents() == overwrite(
                old(medium).contents(),
                inode_offset(*super_block_ref, self.inode_number),
                self.spec_bytes(),
            ),
            r is Err ==> r == Err::<(), FsError>(FsError::IoError),
    {
        let buffer = self.serialize();
        let offset = table_offset(super_block_ref, self.inode_number);
        medium.write_all(offset, buffer.len(), buffer.as_slice())
    }

    /// Decodes every field of a record. Fails with `CorruptLayout` when the
    /// stored name is not UTF-8 text or the file type is unknown.
    pub fn deserialize(bytes: &Vec<u8>) -> (r: Result<Inode, FsError>)
        requires
            bytes@.len() == INODE_SIZE,
        ensures
            match r {
                Ok(inode) => record_is_valid(bytes@) && inode.decoded_from(bytes@),
                Err(e) => e == FsError::CorruptLayout && !record_is_valid(bytes@),
            },
    {
        let ghost field = bytes@.subrange(NAME_OFFSET as int, DATA_BLOCKS_OFFSET as int);
        let inode_number = read_le16(bytes, 0);
        let parent = read_le16(bytes, 2);
        let mut end: usize = NAME_OFFSET;
        while end < DATA_BLOCKS_OFFSET && bytes[end] != 0
            invariant
                NAME_OFFSET <= end <= DATA_BLOCKS_OFFSET,
                bytes@.len() == INODE_SIZE,
                field == bytes@.subrange(NAME_OFFSET as int, DATA_BLOCKS_OFFSET as int),
                zero_index_from(field, 0) == zero_index_from(field, end - NAME_OFFSET),
            decreases DATA_BLOCKS_OFFSET - end,
        {
            assert(field[end - NAME_OFFSET] == bytes@[end as int]);
            end = end + 1;
        }
        proof {
            if end < DATA_BLOCKS_OFFSET {
                assert(field[end - NAME_OFFSET] == bytes@[end as int]);
            }
            assert(zero_index_from(field, 0) == end - NAME_OFFSET);
        }
        let mut name_vec: Vec<u8> = Vec::new();
        let mut k: usize = NAME_OFFSET;
        while k < end
            invariant
                NAME_OFFSET <= k <= end,
                end <= DATA_BLOCKS_OFFSET,
                bytes@.len() == INODE_SIZE,
                name_vec@ == bytes@.subrange(NAME_OFFSET as int, k as int),
            decreases end - k,
        {
            name_vec.push(bytes[k]);
            k = k + 1;
            assert(name_vec@ =~= bytes@.subrange(NAME_OFFSET as int, k as int));
        }
        assert(name_vec@ =~= stored_name(bytes@));
        let name = match utf8_string(name_vec.as_slice()) {
            Some(name) => {
                proof {
                    vstd::utf8::encode_utf8_valid_utf8(name@);
                }
                name
            },
            None => {
                return Err(FsError::CorruptLayout);
            },
        };
        let file_type = if bytes[FILE_TYPE_OFFSET] == 0 {
            FileType::File
        } else if bytes[FILE_TYPE_OFFSET] == 1 {
            FileType::Directory
        } else {
            return Err(FsError::CorruptLayout);
        };
        let mut data_blocks: [u16; 32] = [0u16; 32];
        let mut p: usize = 0;
        while p < DATA_BLOCK_POINTERS
            invariant
                p <= DATA_BLOCK_POINTERS,
                bytes@.len() == INODE_SIZE,
                forall|q: int|
                    0 <= q < p ==> #[trigger] data_blocks[q] == from_le16(
                        bytes@,
                        DATA_BLOCKS_OFFSET + 2 * q,
                    ),
            decreases DATA_BLOCK_POINTERS - p,
        {
            let v = read_le16(bytes, DATA_BLOCKS_OFFSET + 2 * p);
            data_blocks[p] = v;
            p = p + 1;
        }
        let mut raw: Vec<u8> = Vec::new();
        let mut b: usize = BLOCK_BITMAP_OFFSET;
        while b < BLOCK_BITMAP_OFFSET + BLOCK_BITMAP_BYTES
            invariant
                BLOCK_BITMAP_OFFSET <= b <= BLOCK_BITMAP_OFFSET + BLOCK_BITMAP_BYTES,
                bytes@.len() == INODE_SIZE,
                raw@ == bytes@.subrange(BLOCK_BITMAP_OFFSET as int, b as int),
            decreases BLOCK_BITMAP_OFFSET + BLOCK_BITMAP_BYTES - b,
        {
            raw.push(bytes[b]);
            b = b + 1;
            assert(raw@ =~= bytes@.subrange(BLOCK_BITMAP_OFFSET as int, b as int));
        }
        let bitmap = deserialize_bitmap(&raw, DATA_BLOCK_POINTERS);
        assert(rebuilt_raw(raw@, DATA_BLOCK_POINTERS as nat) =~= raw@);
        let file_size = read_le32(bytes, FILE_SIZE_OFFSET);
        Ok(Inode {
            inode_number,
            parent,
            name,
            data_blocks,
            block_bitmap: BlockBitmap { bitmap },
            file_type,
            file_size,
        })
    }

    /// Reads inode `inode_number` back from the inode table. Fails with
    /// `NotFound` when the table has no such inode.
    pub fn load<M: Medium>(medium: &M, inode_number: u16, super_block_ref: &SuperBlock) -> (r: Result<Inode, FsError>)
        requires
            super_block_ref.wf(),
        ensures
            ({
                let off = inode_offset(*super_block_ref, inode_number);
                let rec = medium.contents().subrange(off, off + INODE_SIZE);
                match r {
                    Ok(inode) => {
                        &&& inode_number < super_block_ref.total_inodes
                        &&& off + INODE_SIZE <= medium.contents().len()
                        &&& record_is_valid(rec)
                        &&& inode.decoded_from(rec)
                    },
                    Err(e) => if inode_number >= super_block_ref.total_inodes {
                        e == FsError::NotFound
                    } else {
                        e == FsError::IoError || (e == FsError::CorruptLayout && off + INODE_SIZE
                            <= medium.contents().len() && !record_is_valid(rec))
                    },
                }
            }),
    {
        if inode_number >= super_block_ref.total_inodes {
            return Err(FsError::NotFound);
        }
        let offset = table_offset(super_block_ref, inode_number);
        let mut buffer = vec![0u8; INODE_SIZE];
        medium.read_all(offset, INODE_SIZE, &mut buffer)?;
        Inode::deserialize(&buffer)
    }
}

/// Byte offset of inode `n` in the inode table.
fn table_offset(super_block_ref: &SuperBlock, n: u16) -> (r: u64)
    requires
        super_block_ref.wf(),
    ensures
        r == inode_offset(*super_block_ref, n),
{
    let block_size = super_block_ref.get_block_size() as u64;
    assert(super_block_ref.inode_start_block as int * block_size as int <= 65535 * 4294967295)
        by (nonlinear_arith)
        requires
            super_block_ref.inode_start_block <= 65535,
            block_size <= 4294967295,
    ;
    assert(INODE_SIZE as int * n as int <= 256 * 65535) by (nonlinear_arith)
        requires
            n <= 65535,
    ;
    super_block_ref.inode_start_block as u64 * block_size + INODE_SIZE as u64 * n as u64
}

proof fn lemma_zero_index(field: Seq<u8>, len: int, k: int)
    requires
        0 <= k <= len <= field.len(),
        forall|j: int| 0 <= j < len ==> #[trigger] field[j] != 0,
        len == field.len() || field[len] == 0,
    ensures
        zero_index_from(field, k) == len,
    decreases len - k,
{
    if k < len {
        lemma_zero_index(field, len, k + 1);
    }
}

/// A storable inode, written as a record and decoded from it, keeps every
/// field, and the record decodes without error.
pub proof fn lemma_inode_round_trip(inode: Inode, decoded: Inode)
    requires
        inode.is_storable(),
        decoded.decoded_from(inode.spec_bytes()),
    ensures
        record_is_valid(inode.spec_bytes()),
        decoded.inode_number == inode.inode_number,
        decoded.parent == inode.parent,
        decoded.name@ == inode.name@,
        decoded.data_blocks@ == inode.data_blocks@,
        decoded.block_bitmap@ == inode.block_bitmap@,
        decoded.file_type == inode.file_type,
        decoded.file_size == inode.file_size,
{
    let fields = inode.record_fields();
    let b = inode.spec_bytes();
    let name = fit_to(inode.name_bytes(), MAX_FILE_NAME_SIZE as nat);
    let ptrs = pointer_bytes(inode.data_blocks@);
    assert(fields.len() == 141);
    assert forall|j: int| 0 <= j < 141 implies b[j] == fields[j] by {}
    assert(b.subrange(0, 2) =~= le16(inode.inode_number));
    assert(b.subrange(2, 4) =~= le16(inode.parent));
    assert(b.subrange(137, 141) =~= le32(inode.file_size));
    lemma_le16_round_trip(inode.inode_number, b, 0);
    lemma_le16_round_trip(inode.parent, b, 2);
    lemma_le32_round_trip(inode.file_size, b, 137);
    let field = b.subrange(NAME_OFFSET as int, DATA_BLOCKS_OFFSET as int);
    assert(field =~= name);
    lemma_zero_index(field, inode.name_bytes().len() as int, 0);
    assert(stored_name(b) =~= inode.name_bytes());
    vstd::utf8::encode_utf8_valid_utf8(inode.name@);
    encode_utf8_decode_utf8(inode.name@);
    encode_utf8_decode_utf8(decoded.name@);
    assert forall|k: int| 0 <= k < DATA_BLOCK_POINTERS implies decoded.data_blocks[k] == inode.data_blocks[k] by {
        assert(b[DATA_BLOCKS_OFFSET + 2 * k] == ptrs[2 * k]);
        assert(b[DATA_BLOCKS_OFFSET + 2 * k + 1] == ptrs[2 * k + 1]);
        assert(b.subrange(DATA_BLOCKS_OFFSET + 2 * k, DATA_BLOCKS_OFFSET + 2 * k + 2) =~= le16(inode.data_blocks[k]));
        lemma_le16_round_trip(inode.data_blocks[k], b, DATA_BLOCKS_OFFSET + 2 * k);
    }
    assert(decoded.data_blocks@ =~= inode.data_blocks@);
    assert(decoded.block_bitmap.raw() =~= inode.block_bitmap.raw());
    assert(decoded.block_bitmap@ =~= inode.block_bitmap@);
    assert(b[FILE_TYPE_OFFSET as int] == file_type_byte(inode.file_type));
}

/// `inode` is the record a new entry gets: the lowest free inode number of
/// `bitmap`, the given parent, name and type, no data blocks and size zero.
pub open spec fn is_fresh_inode(
    inode: Inode,
    bitmap: Seq<bool>,
    parent: u16,
    name: Seq<u8>,
    file_type: FileType,
) -> bool {
    &&& is_lowest_free(bitmap, inode.inode_number as int)
    &&& inode.parent == parent
    &&& inode.name_bytes() == name
    &&& inode.data_blocks@ == Seq::new(DATA_BLOCK_POINTERS as nat, |i: int| 0u16)
    &&& inode.block_bitmap.wf()
    &&& inode.block_bitmap@ == Seq::new(DATA_BLOCK_POINTERS as nat, |i: int| false)
    &&& inode.file_type == file_type
    &&& inode.file_size == 0
}

impl Inode {
    /// A new inode for an entry named `name` under `parent`, numbered with the
    /// lowest free inode. The inode bitmap is left as it is: marking the
    /// inode in use and writing it are the caller's steps. Fails with
    /// `NameTooLong` when the name has more than `MAX_FILE_NAME_SIZE` bytes,
    /// else with `NoFreeInodes` when every inode is in use.
    pub fn create_new<T: Path, M: Medium>(
        parent: u16,
        name: T,
        file_type: FileType,
        metadata: &fs_metadata<M>,
    ) -> (r: Result<Inode, FsError>)
        requires
            metadata.wf(),
        ensures
            ({
                let name_b = name_text(name.path_bytes());
                match r {
                    Ok(inode) => {
                        &&& name_b.len() <= MAX_FILE_NAME_SIZE
                        &&& is_fresh_inode(inode, metadata.inode_bitmap@, parent, name_b, file_type)
                    },
                    Err(e) => if name_b.len() > MAX_FILE_NAME_SIZE {
                        e == FsError::NameTooLong
                    } else {
                        e == FsError::NoFreeInodes && is_all_set(metadata.inode_bitmap@)
                    },
                }
            }),
    {
        let text = name.to_String();
        let text_len = text.as_str().as_bytes().len();
        assert(text_len == name_text(name.path_bytes()).len());
        if text_len > MAX_FILE_NAME_SIZE {
            return Err(FsError::NameTooLong);
        }
        if metadata.is_inode_bitmap_full() {
            return Err(FsError::NoFreeInodes);
        }
        let inode_number = match metadata.inode_find_first_free() {
            Some(n) => n as u16,
            None => {
                return Err(FsError::NoFreeInodes);
            },
        };
        let bitmap = BlockBitmap::new(DATA_BLOCK_POINTERS);
        let data_blocks: [u16; 32] = [0u16; 32];
        assert(data_blocks@ =~= Seq::new(DATA_BLOCK_POINTERS as nat, |i: int| 0u16));
        assert(encode_utf8(text@) == name_text(name.path_bytes()));
        Ok(Inode {
            inode_number,
            parent,
            name: text,
            data_blocks,
            block_bitmap: bitmap,
            file_type,
            file_size: 0,
        })
    }
}

} // verus!
