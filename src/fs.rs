//! The filesystem as a whole: create one on a medium, or load the one a
//! medium holds, with the root directory as the current directory.
use vstd::prelude::*;
use vstd::utf8::{encode_utf8, encode_utf8_decode_utf8, encode_utf8_valid_utf8};
use crate::entity::Directory;
use crate::error::FsError;
use crate::fs_metadata::{fs_metadata, layout_fits};
use crate::inode::{FileType, inode_offset};
use crate::inode_bitmap::is_lowest_free;
use crate::medium::{Medium, overwrite, holds_record, lemma_overwrite_holds, lemma_overwrite_disjoint};
use crate::bitmap::bitmap_image;
use crate::super_block::{SUPER_BLOCK_RECORD_LEN, decode_super_block, derived_total_inodes};
use crate::util::{INODE_SIZE, name_text};

verus! {

/// A filesystem on a medium, and its current directory.
#[allow(non_camel_case_types)]
pub struct ffs<M: Medium> {
    pub metadata: fs_metadata<M>,
    pub cwd: Directory,
}

impl<M: Medium> ffs<M> {
    /// Loads the filesystem that `medium` holds: its metadata, then the root
    /// directory (inode 0), which becomes the current directory.
    pub fn load(medium: M) -> (r: Result<ffs<M>, FsError>)
        ensures
            match r {
                Ok(fs) => {
                    let sb = fs.metadata.super_block;
                    let off = inode_offset(sb, 0);
                    &&& fs.metadata.wf()
                    &&& fs.metadata.medium == medium
                    &&& sb == decode_super_block(medium.contents())
                    &&& fs.cwd.inode.decoded_from(medium.contents().subrange(off, off + INODE_SIZE))
                },
                Err(e) => e == FsError::IoError || e == FsError::CorruptLayout || e
                    == FsError::NotFound,
            },
    {
        let metadata = fs_metadata::fetch(medium)?;
        let cwd = Directory::load(0, &metadata)?;
        Ok(ffs { metadata, cwd })
    }

    /// Creates a filesystem of `size` bytes on `medium`, with blocks of
    /// `block_size` bytes and one inode per `bytes_per_inode` bytes, and its
    /// root directory `/` at inode 0. Fails with `CorruptLayout` when the
    /// geometry does not fit, and with `NoFreeInodes` only when it leaves no
    /// inode.
    pub fn new(medium: M, size: u32, block_size: u32, bytes_per_inode: u32) -> (r: Result<ffs<M>, FsError>)
        ensures
            match r {
                Ok(fs) => {
                    let md = fs.metadata;
                    let root = fs.cwd.inode;
                    &&& layout_fits(size, block_size, bytes_per_inode)
                    &&& md.wf()
                    &&& md.super_block.has_geometry(size, block_size, bytes_per_inode)
                    &&& root.inode_number == 0
                    &&& root.parent == 0
                    &&& root.name@ == seq!['/']
                    &&& root.file_type == FileType::Directory
                    &&& root.file_size == 0
                    &&& md.inode_bitmap@[0]
                    &&& holds_record(md.medium.contents(), inode_offset(md.super_block, 0), root.spec_bytes())
                },
                Err(e) => if !layout_fits(size, block_size, bytes_per_inode) {
                    e == FsError::CorruptLayout
                } else {
                    e == FsError::IoError || (e == FsError::NoFreeInodes && derived_total_inodes(
                        size,
                        bytes_per_inode,
                    ) == 0)
                },
            },
    {
        let mut metadata = fs_metadata::create_new(medium, size, block_size, bytes_per_inode)?;
        let ghost before = metadata;
        let root_name = "/";
        proof {
            reveal_strlit("/");
            reveal_with_fuel(encode_utf8, 2);
            encode_utf8_valid_utf8(root_name@);
            assert(name_text(encode_utf8(root_name@)).len() == 1);
        }
        let cwd = match Directory::new(root_name, None, &mut metadata) {
            Ok(cwd) => cwd,
            Err(e) => {
                proof {
                    if before.super_block.total_inodes > 0 {
                        assert(!before.inode_bitmap@[0]);
                    }
                }
                return Err(e);
            },
        };
        proof {
            let root = cwd.inode;
            let sb = metadata.super_block;
            assert(is_lowest_free(before.inode_bitmap@, root.inode_number as int));
            if root.inode_number > 0 {
                assert(!before.inode_bitmap@[0]);
            }
            encode_utf8_decode_utf8(root.name@);
            encode_utf8_decode_utf8(root_name@);
            let bs = sb.block_size() as int;
            let off = inode_offset(before.super_block, 0);
            let rec = root.spec_bytes();
            let c1 = overwrite(before.medium.contents(), off, rec);
            let c2 = overwrite(c1, 0, sb.spec_bytes());
            let image = bitmap_image(metadata.inode_bitmap.raw(), sb.inode_bitmap_block_count as nat, sb.block_size());
            assert(rec.len() == INODE_SIZE);
            lemma_overwrite_holds(before.medium.contents(), off, rec);
            assert(off == sb.inode_start_block * bs);
            assert(SUPER_BLOCK_RECORD_LEN <= bs);
            assert(sb.inode_start_block >= 1);
            assert(bs <= sb.inode_start_block * bs) by (nonlinear_arith)
                requires
                    sb.inode_start_block >= 1,
                    bs >= 0,
            ;
            lemma_overwrite_disjoint(c1, off, rec, 0, sb.spec_bytes());
            assert(image.len() == sb.inode_bitmap_block_count * bs);
            assert(bs + sb.inode_bitmap_block_count * bs <= sb.inode_start_block * bs) by (nonlinear_arith)
                requires
                    sb.inode_start_block >= 1 + sb.inode_bitmap_block_count,
                    bs >= 0,
            ;
            lemma_overwrite_disjoint(c2, off, rec, bs, image);
        }
        Ok(ffs { metadata, cwd })
    }
}

} // verus!
