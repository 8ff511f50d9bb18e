use vstd::prelude::*;
use vstd::utf8::{encode_utf8, valid_utf8, encode_utf8_valid_utf8};

verus! {

/// Number of released on-disk format versions.
pub const NUM_RELEASED_VERSIONS: usize = 1;

/// Index, in the table of released versions, of the version new filesystems get.
pub const CURRENT_FS_VERSION_IDX: usize = 0;

/// Longest entry name, in bytes.
pub const MAX_FILE_NAME_SIZE: usize = 64;

/// Capacity of a directory's children list.
pub const MAX_CHILDREN_COUNT: usize = 64;

/// Size of one inode record, in bytes.
pub const INODE_SIZE: usize = 256;

/// log2 of `INODE_SIZE`.
pub const INODE_SIZE_LOG: u8 = 8;

/// First block of the inode bitmap (block 0 holds the superblock).
pub const INODE_BITMAP_STARTING_BLOCK_NUMBER: usize = 1;

/// Byte offset of the superblock record on the medium.
pub const SUPER_BLOCK_FILE_OFFSET: u64 = 0;

/// Number of bytes read back when the superblock is loaded.
pub const SUPER_BLOCK_SIZE: usize = 256;

/// The released on-disk format versions, oldest first.
pub open spec fn valid_fs_versions() -> Seq<[u8; 3]> {
    seq![[0u8, 0u8, 1u8]]
}

/// A format version that this library reads and writes.
pub open spec fn is_supported_version(v: Seq<u8>) -> bool {
    v.len() == 3 && exists|i: int|
        0 <= i < valid_fs_versions().len() && #[trigger] valid_fs_versions()[i]@ == v
}

/// The version written into new filesystems.
pub open spec fn latest_version() -> [u8; 3] {
    valid_fs_versions()[CURRENT_FS_VERSION_IDX as int]
}

/// The format version that new filesystems are created with.
pub fn get_latest_version() -> (r: [u8; 3])
    ensures
        r == latest_version(),
        is_supported_version(r@),
{
    let versions: [[u8; 3]; 1] = [[0u8, 0u8, 1u8]];
    let r = versions[CURRENT_FS_VERSION_IDX];
    assert(valid_fs_versions()[0]@ == r@);
    r
}

/// Whether `v` is one of the released format versions.
pub fn is_valid_version(v: &[u8; 3]) -> (r: bool)
    ensures
        r == is_supported_version(v@),
{
    let r = v[0] == 0 && v[1] == 0 && v[2] == 1;
    proof {
        if r {
            assert(valid_fs_versions()[0]@ =~= v@);
        } else {
            assert(valid_fs_versions()[0]@ == seq![0u8, 0u8, 1u8]);
            assert(!is_supported_version(v@)) by {
                if is_supported_version(v@) {
                    let i = choose|i: int|
                        0 <= i < valid_fs_versions().len() && #[trigger] valid_fs_versions()[i]@
                            == v@;
                    assert(i == 0);
                    assert(v@[0] == 0 && v@[1] == 0 && v@[2] == 1);
                }
            }
        }
    }
    r
}

/// The bytes that name an entry, when they are UTF-8 text; no bytes otherwise.
pub open spec fn name_text(b: Seq<u8>) -> Seq<u8> {
    if valid_utf8(b) {
        b
    } else {
        Seq::empty()
    }
}

/// Relies on `String::from_utf8`: the text that `bytes` encode, or nothing
/// when they are not UTF-8.
#[verifier::external_body]
pub(crate) fn utf8_string(bytes: &[u8]) -> (r: Option<String>)
    ensures
        match r {
            Some(s) => encode_utf8(s@) == bytes@,
            None => !valid_utf8(bytes@),
        },
{
    String::from_utf8(bytes.to_vec()).ok()
}

/// Something that names an entry.
pub trait Path {
    /// The bytes of the name.
    spec fn path_bytes(&self) -> Seq<u8>;

    /// The bytes of the name.
    fn to_le_bytes(&self) -> (r: &[u8])
        ensures
            r@ == self.path_bytes(),
    ;

    /// The name as text; empty when its bytes are not UTF-8.
    #[allow(non_snake_case)]
    fn to_String(&self) -> (r: String)
        ensures
            encode_utf8(r@) == name_text(self.path_bytes()),
    ;
}

impl Path for String {
    open spec fn path_bytes(&self) -> Seq<u8> {
        encode_utf8(self@)
    }

    fn to_le_bytes(&self) -> (r: &[u8]) {
        self.as_str().as_bytes()
    }

    #[allow(non_snake_case)]
    fn to_String(&self) -> (r: String) {
        proof {
            encode_utf8_valid_utf8(self@);
        }
        self.clone()
    }
}

impl<'a> Path for &'a str {
    open spec fn path_bytes(&self) -> Seq<u8> {
        encode_utf8((*self)@)
    }

    fn to_le_bytes(&self) -> (r: &[u8]) {
        (*self).as_bytes()
    }

    #[allow(non_snake_case)]
    fn to_String(&self) -> (r: String) {
        proof {
            encode_utf8_valid_utf8((*self)@);
        }
        str::to_owned(*self)
    }
}

impl<'a> Path for &'a [u8] {
    open spec fn path_bytes(&self) -> Seq<u8> {
        (*self)@
    }

    fn to_le_bytes(&self) -> (r: &[u8]) {
        *self
    }

    #[allow(non_snake_case)]
    fn to_String(&self) -> (r: String) {
        match utf8_string(*self) {
            Some(s) => {
                proof {
                    encode_utf8_valid_utf8(s@);
                }
                s
            },
            None => {
                let s = String::new();
                assert(s@ =~= Seq::<char>::empty());
                assert(encode_utf8(s@) =~= Seq::<u8>::empty());
                s
            },
        }
    }
}

} // verus!
