use ffs::block::{Block, BlockDataType};
use ffs::block_bitmap::BlockBitmap;
use ffs::entity::Directory;
use ffs::error::FsError;
use ffs::fs::ffs as Ffs;
use ffs::fs_metadata::fs_metadata;
use ffs::inode::{FileType, Inode};
use ffs::inode_bitmap::InodeBitmap;
use ffs::medium::{Medium, MemoryMedium};
use ffs::super_block::SuperBlock;
use ffs::util::{get_latest_version, is_valid_version, Path};

const TEST_FS_SIZE: u32 = 10 * (1 << 20);
const BLOCK_SIZE: u32 = 4 * (1 << 10);
const BYTES_PER_INODE: u32 = 1 << 12;

fn bits_of(bm: &InodeBitmap) -> Vec<bool> {
    (0..bm.len()).map(|i| bm.get(i)).collect()
}

fn contents(m: &MemoryMedium) -> Vec<u8> {
    let mut buf = vec![0u8; m.len()];
    assert!(m.read_all(0, m.len(), &mut buf).is_ok());
    buf
}

fn new_medium() -> MemoryMedium {
    MemoryMedium::new(TEST_FS_SIZE as usize)
}

#[test]
fn test_new_fs() {
    let medium = new_medium();
    let fs = Ffs::new(medium, TEST_FS_SIZE, BLOCK_SIZE, BYTES_PER_INODE);
    assert!(fs.is_ok());
}

#[test]
fn test_existing_fs() {
    let created = Ffs::new(new_medium(), TEST_FS_SIZE, BLOCK_SIZE, BYTES_PER_INODE).ok().unwrap();
    let bytes = created.metadata.medium.into_bytes();
    let medium = MemoryMedium::from_bytes(bytes);
    let fs = Ffs::load(medium);
    assert!(fs.is_ok());
}

#[test]
fn geometry_of_ten_mib() {
    let sb = SuperBlock::create_new(TEST_FS_SIZE, BLOCK_SIZE, BYTES_PER_INODE);
    assert_eq!(sb.get_total_inodes(), 2560);
    assert_eq!(sb.get_total_blocks(), 2560);
    assert!(sb.get_inode_bitmap_block_count() >= 1);
    assert!(sb.get_block_bitmap_block_count() >= 1);
    assert_eq!(
        sb.get_inode_start_block(),
        1 + sb.get_inode_bitmap_block_count() + sb.get_block_bitmap_block_count()
    );
    assert_eq!(sb.get_inode_bitmap_block_count(), 1);
    assert_eq!(sb.get_block_bitmap_block_count(), 1);
    assert_eq!(sb.get_inode_start_block(), 3);
    assert_eq!(sb.total_inode_blocks, 160);
    assert_eq!(sb.get_block_size(), 4096);
    assert_eq!(sb.block_size_log, 12);
    assert_eq!(sb.inode_size_log, 8);
    assert_eq!(sb.free_inodes, 2560);
    assert_eq!(sb.free_blocks, 2560);
    assert_eq!(sb.version, [0, 0, 1]);
}

#[test]
fn bitmap_blocks_grow_with_count() {
    // 65536 bytes of 512-byte blocks: 128 blocks; 64 inodes per 512 bytes.
    let sb = SuperBlock::create_new(1 << 16, 512, 1 << 3);
    assert_eq!(sb.get_total_inodes(), 8192);
    assert_eq!(sb.get_total_blocks(), 128);
    assert_eq!(sb.get_inode_bitmap_block_count(), 2);
    assert_eq!(sb.get_block_bitmap_block_count(), 1);
    assert_eq!(sb.get_inode_start_block(), 4);
    assert_eq!(sb.total_inode_blocks, 4096);
}

#[test]
fn geometry_checks() {
    assert!(SuperBlock::geometry_is_valid(TEST_FS_SIZE, BLOCK_SIZE, BYTES_PER_INODE));
    assert!(!SuperBlock::geometry_is_valid(TEST_FS_SIZE, 3000, BYTES_PER_INODE));
    assert!(!SuperBlock::geometry_is_valid(TEST_FS_SIZE, BLOCK_SIZE, 0));
    assert!(!SuperBlock::geometry_is_valid(TEST_FS_SIZE, 16, BYTES_PER_INODE));
    assert!(!SuperBlock::geometry_is_valid(1 << 30, BLOCK_SIZE, BYTES_PER_INODE));
}

#[test]
fn super_block_bytes() {
    let sb = SuperBlock::create_new(TEST_FS_SIZE, BLOCK_SIZE, BYTES_PER_INODE);
    let block = sb.serialize();
    assert_eq!(block.block_number, 0);
    assert_eq!(block.block_type, BlockDataType::SuperBlock);
    assert_eq!(
        block.data,
        vec![0, 0, 1, 0x00, 0x0A, 0x00, 0x0A, 0x00, 0x0A, 0x00, 0x0A, 8, 12, 1, 1, 3, 0, 160, 0]
    );
}

#[test]
fn super_block_round_trip() {
    let sb = SuperBlock::create_new(TEST_FS_SIZE, BLOCK_SIZE, BYTES_PER_INODE);
    let mut medium = MemoryMedium::new(4096);
    assert!(sb.persist(&mut medium).is_ok());
    let back = SuperBlock::deserialize(&medium).ok().unwrap();
    assert_eq!(back.version, sb.version);
    assert_eq!(back.total_inodes, sb.total_inodes);
    assert_eq!(back.total_blocks, sb.total_blocks);
    assert_eq!(back.free_inodes, sb.free_inodes);
    assert_eq!(back.free_blocks, sb.free_blocks);
    assert_eq!(back.inode_size_log, sb.inode_size_log);
    assert_eq!(back.block_size_log, sb.block_size_log);
    assert_eq!(back.inode_bitmap_block_count, sb.inode_bitmap_block_count);
    assert_eq!(back.block_bitmap_block_count, sb.block_bitmap_block_count);
    assert_eq!(back.inode_start_block, sb.inode_start_block);
    assert_eq!(back.total_inode_blocks, sb.total_inode_blocks);
}

#[test]
fn super_block_decodes_little_endian() {
    let mut data = vec![0, 0, 1, 0x34, 0x12, 0x78, 0x56, 1, 0, 2, 0, 8, 5, 1, 1, 3, 0, 0xCD, 0xAB];
    data.resize(256, 0);
    let block = Block { block_number: 0, data, block_type: BlockDataType::SuperBlock };
    let sb = SuperBlock::deserialize_block(block).ok().unwrap();
    assert_eq!(sb.total_inodes, 0x1234);
    assert_eq!(sb.total_blocks, 0x5678);
    assert_eq!(sb.free_inodes, 1);
    assert_eq!(sb.free_blocks, 2);
    assert_eq!(sb.get_block_size(), 32);
    assert_eq!(sb.total_inode_blocks, 0xABCD);
}

#[test]
fn super_block_rejects_corrupt_layout() {
    let short = Block { block_number: 0, data: vec![0, 0, 1], block_type: BlockDataType::SuperBlock };
    assert_eq!(SuperBlock::deserialize_block(short).err(), Some(FsError::CorruptLayout));
    let bad_version = vec![9, 9, 9, 1, 0, 1, 0, 1, 0, 1, 0, 8, 12, 1, 1, 3, 0, 1, 0];
    let block = Block { block_number: 0, data: bad_version, block_type: BlockDataType::Other };
    assert_eq!(SuperBlock::deserialize_block(block).err(), Some(FsError::CorruptLayout));
    let bad_start = vec![0, 0, 1, 1, 0, 1, 0, 1, 0, 1, 0, 8, 12, 1, 1, 4, 0, 1, 0];
    let block = Block { block_number: 0, data: bad_start, block_type: BlockDataType::Other };
    assert_eq!(SuperBlock::deserialize_block(block).err(), Some(FsError::CorruptLayout));
    let zero_bitmap = vec![0, 0, 1, 1, 0, 1, 0, 1, 0, 1, 0, 8, 12, 0, 1, 2, 0, 1, 0];
    let block = Block { block_number: 0, data: zero_bitmap, block_type: BlockDataType::Other };
    assert_eq!(SuperBlock::deserialize_block(block).err(), Some(FsError::CorruptLayout));
    let zeroed = MemoryMedium::new(4096);
    assert_eq!(SuperBlock::deserialize(&zeroed).err(), Some(FsError::CorruptLayout));
    let tiny = MemoryMedium::new(10);
    assert_eq!(SuperBlock::deserialize(&tiny).err(), Some(FsError::IoError));
}

#[test]
fn first_fit() {
    let mut bm = InodeBitmap::new(8);
    bm.set(2);
    bm.set(5);
    assert_eq!(bm.find_first_free(), Some(0));
    assert!(!bm.is_full());
    assert!(bm.get(2));
    assert!(bm.get(5));
    assert!(!bm.get(3));
    for i in 0..8 {
        bm.set(i);
    }
    assert_eq!(bm.find_first_free(), None);
    assert!(bm.is_full());
}

#[test]
fn first_fit_skips_used_prefix() {
    let mut bm = InodeBitmap::new(10);
    bm.allocate_inode(0);
    bm.allocate_inode(1);
    bm.set(3);
    assert_eq!(bm.find_first_free(), Some(2));
    assert_eq!(bm.len(), 10);
}

fn bitmap_round_trip(bits: usize, fs_size: u32, block_size: u32) {
    // One inode per byte of the filesystem: `bits` inodes.
    let sb = SuperBlock::create_new(fs_size, block_size, fs_size / bits as u32);
    assert_eq!(sb.get_total_inodes(), bits);
    let mut bm = InodeBitmap::new(bits);
    for i in 0..bits {
        if i % 3 == 0 || i == bits - 1 {
            bm.set(i);
        }
    }
    let mut medium = MemoryMedium::new(fs_size as usize);
    assert!(bm.persist(&mut medium, &sb).is_ok());
    let back = InodeBitmap::fetch(&medium, &sb).ok().unwrap();
    assert_eq!(back.len(), bits);
    for i in 0..bits {
        assert_eq!(back.get(i), bm.get(i));
    }
}

#[test]
fn bitmap_round_trip_whole_block() {
    bitmap_round_trip(256, 1 << 12, 32);
}

#[test]
fn bitmap_round_trip_partial_block() {
    bitmap_round_trip(100, 4000, 32);
}

#[test]
fn bitmap_round_trip_two_blocks() {
    bitmap_round_trip(512, 1 << 12, 32);
}

#[test]
fn block_bitmap_round_trip() {
    let sb = SuperBlock::create_new(1 << 12, 32, 1 << 6);
    assert_eq!(sb.get_total_blocks(), 128);
    let mut bm = BlockBitmap::new(128);
    bm.set(0);
    bm.set(9);
    bm.set(127);
    let mut medium = MemoryMedium::new(1 << 12);
    assert!(bm.persist(&mut medium, &sb).is_ok());
    let back = BlockBitmap::fetch(&medium, &sb).ok().unwrap();
    assert_eq!(back.serialize_to_vec(), bm.serialize_to_vec());
    assert_eq!(back.len(), 128);
}

#[test]
fn block_bitmap_raw_bytes() {
    let mut bm = BlockBitmap::new(12);
    bm.set(0);
    bm.set(9);
    assert_eq!(bm.serialize_to_vec(), vec![1, 2]);
}

#[test]
fn bitmap_blocks_on_disk() {
    // Inode bitmap at block 1, block bitmap right after it, last block padded.
    let sb = SuperBlock::create_new(1 << 12, 32, 1 << 6);
    let mut ib = InodeBitmap::new(64);
    ib.set(8);
    let mut medium = MemoryMedium::from_bytes(vec![0xFF; 1 << 12]);
    assert!(ib.persist(&mut medium, &sb).is_ok());
    let bytes = medium.into_bytes();
    assert_eq!(bytes[31], 0xFF);
    assert_eq!(bytes[32], 0);
    assert_eq!(bytes[33], 1);
    assert_eq!(bytes[34], 0);
    assert_eq!(bytes[63], 0);
    assert_eq!(bytes[64], 0xFF);
}

fn new_metadata() -> fs_metadata<MemoryMedium> {
    fs_metadata::create_new(new_medium(), TEST_FS_SIZE, BLOCK_SIZE, BYTES_PER_INODE).ok().unwrap()
}

#[test]
fn metadata_marks_its_own_blocks() {
    let md = new_metadata();
    assert_eq!(md.super_block_get_total_blocks(), 2560);
    assert_eq!(md.super_block_get_inode_start_block(), 3);
    assert_eq!(md.super_block_get_block_size(), 4096);
    assert_eq!(md.block_bitmap.serialize_to_vec()[0], 0b0000_0111);
    assert_eq!(md.super_block.free_blocks, 2557);
    assert!(!md.is_inode_bitmap_full());
    assert_eq!(md.inode_find_first_free(), Some(0));
}

#[test]
fn metadata_fetch_reads_back() {
    let mut md = new_metadata();
    md.set_inode_in_bitmap(0);
    md.set_inode_in_bitmap(1);
    assert!(md.persist_inode_bitmap().is_ok());
    assert!(md.persist_block_bitmap().is_ok());
    let bytes = md.medium.into_bytes();
    let back = fs_metadata::fetch(MemoryMedium::from_bytes(bytes)).ok().unwrap();
    assert_eq!(back.super_block.free_inodes, 2558);
    assert_eq!(back.inode_find_first_free(), Some(2));
    assert!(back.inode_bitmap.get(0));
    assert!(back.inode_bitmap.get(1));
    assert_eq!(back.block_bitmap.serialize_to_vec()[0], 0b0000_0111);
}

#[test]
fn metadata_rejects_bad_geometry() {
    let r = fs_metadata::create_new(new_medium(), TEST_FS_SIZE, 3000, BYTES_PER_INODE);
    assert_eq!(r.err(), Some(FsError::CorruptLayout));
    // Two blocks of 32 bytes leave no room for the three metadata blocks.
    let r = fs_metadata::create_new(MemoryMedium::new(64), 64, 32, 8);
    assert_eq!(r.err(), Some(FsError::CorruptLayout));
}

#[test]
fn metadata_reports_io_error() {
    let r = fs_metadata::create_new(MemoryMedium::new(100), TEST_FS_SIZE, BLOCK_SIZE, BYTES_PER_INODE);
    assert_eq!(r.err(), Some(FsError::IoError));
}

#[test]
fn allocation_is_sequential() {
    let mut md = new_metadata();
    let names = ["a", "b", "c", "d", "e"];
    for (k, name) in names.iter().enumerate() {
        let dir = Directory::new(*name, None, &mut md).ok().unwrap();
        assert_eq!(dir.get_inode_number() as usize, k);
    }
    for i in 0..10 {
        assert_eq!(md.inode_bitmap.get(i), i < 5);
    }
    assert_eq!(md.super_block.free_inodes, 2555);
}

#[test]
fn root_creation() {
    let fs = Ffs::new(new_medium(), TEST_FS_SIZE, BLOCK_SIZE, BYTES_PER_INODE).ok().unwrap();
    assert_eq!(fs.cwd.get_inode_number(), 0);
    assert_eq!(fs.cwd.inode.name, "/");
    assert_eq!(fs.cwd.inode.file_type, FileType::Directory);
    assert_eq!(fs.cwd.inode.parent, 0);
    assert!(fs.metadata.inode_bitmap.get(0));
    let loaded = Ffs::load(MemoryMedium::from_bytes(fs.metadata.medium.into_bytes())).ok().unwrap();
    assert_eq!(loaded.cwd.get_inode_number(), 0);
    assert_eq!(loaded.cwd.inode.name, "/");
    assert_eq!(loaded.cwd.inode.file_type, FileType::Directory);
    assert_eq!(loaded.cwd.inode.parent, 0);
    assert!(loaded.metadata.inode_bitmap.get(0));
    assert!(!loaded.metadata.inode_bitmap.get(1));
}

#[test]
fn name_bound() {
    let mut fs = Ffs::new(new_medium(), TEST_FS_SIZE, BLOCK_SIZE, BYTES_PER_INODE).ok().unwrap();
    let before = bits_of(&fs.metadata.inode_bitmap);
    let long_name = "x".repeat(65);
    let r = fs.cwd.create_new_file(long_name, &mut fs.metadata);
    assert_eq!(r.err(), Some(FsError::NameTooLong));
    assert_eq!(bits_of(&fs.metadata.inode_bitmap), before);
    assert_eq!(fs.metadata.inode_find_first_free(), Some(1));
    let ok_name = "y".repeat(64);
    let f = fs.cwd.create_new_file(ok_name.clone(), &mut fs.metadata).ok().unwrap();
    assert_eq!(f.inode.inode_number, 1);
    assert_eq!(f.inode.name, ok_name);
}

#[test]
fn name_bound_leaves_medium_alone() {
    let mut md = new_metadata();
    let before = contents(&md.medium);
    let r = Directory::new("z".repeat(65), None, &mut md);
    assert_eq!(r.err(), Some(FsError::NameTooLong));
    assert!(contents(&md.medium) == before);
    assert_eq!(md.inode_find_first_free(), Some(0));
}

#[test]
fn no_free_inodes() {
    // 4096 bytes, one inode per 2048 bytes: two inodes.
    let mut md = fs_metadata::create_new(MemoryMedium::new(1 << 12), 1 << 12, 32, 1 << 11).ok().unwrap();
    assert!(Directory::new("/", None, &mut md).is_ok());
    assert!(Directory::new("a", None, &mut md).is_ok());
    assert!(md.is_inode_bitmap_full());
    let r = Directory::new("b", None, &mut md);
    assert_eq!(r.err(), Some(FsError::NoFreeInodes));
}

#[test]
fn children_record_their_parent() {
    let mut fs = Ffs::new(new_medium(), TEST_FS_SIZE, BLOCK_SIZE, BYTES_PER_INODE).ok().unwrap();
    let mut sub = fs.cwd.create_new_directory("docs", &mut fs.metadata).ok().unwrap();
    assert_eq!(sub.get_inode_number(), 1);
    assert_eq!(sub.inode.parent, 0);
    let f = sub.create_new_file("readme", &mut fs.metadata).ok().unwrap();
    assert_eq!(f.inode.inode_number, 2);
    assert_eq!(f.inode.parent, 1);
    assert_eq!(f.inode.file_type, FileType::File);
    let loaded = Directory::load(2, &fs.metadata).ok().unwrap();
    assert_eq!(loaded.inode.name, "readme");
    assert_eq!(loaded.inode.parent, 1);
    assert_eq!(loaded.inode.file_type, FileType::File);
}

#[test]
fn inode_record_round_trip() {
    let md = new_metadata();
    let mut inode = Inode::create_new(7, "notes.txt", FileType::File, &md).ok().unwrap();
    inode.data_blocks[0] = 0x1234;
    inode.data_blocks[31] = 0xBEEF;
    inode.file_size = 0x0102_0304;
    inode.block_bitmap.set(3);
    let bytes = inode.serialize();
    assert_eq!(bytes.len(), 256);
    assert_eq!(&bytes[0..2], &[0, 0]);
    assert_eq!(&bytes[2..4], &[7, 0]);
    assert_eq!(&bytes[4..13], b"notes.txt");
    assert_eq!(bytes[13], 0);
    assert_eq!(&bytes[68..70], &[0x34, 0x12]);
    assert_eq!(&bytes[130..132], &[0xEF, 0xBE]);
    assert_eq!(&bytes[132..136], &[8, 0, 0, 0]);
    assert_eq!(bytes[136], 0);
    assert_eq!(&bytes[137..141], &[4, 3, 2, 1]);
    assert!(bytes[141..].iter().all(|b| *b == 0));
    let back = Inode::deserialize(&bytes).ok().unwrap();
    assert_eq!(back.inode_number, inode.inode_number);
    assert_eq!(back.parent, 7);
    assert_eq!(back.name, "notes.txt");
    assert_eq!(back.data_blocks, inode.data_blocks);
    assert_eq!(back.block_bitmap.serialize_to_vec(), vec![8, 0, 0, 0]);
    assert_eq!(back.file_type, FileType::File);
    assert_eq!(back.file_size, 0x0102_0304);
}

#[test]
fn inode_persist_and_load() {
    let mut md = new_metadata();
    let inode = Inode::create_new(0, "dir", FileType::Directory, &md).ok().unwrap();
    assert!(md.persist_inode(&inode).is_ok());
    assert_eq!(md.load_inode(0).err(), Some(FsError::NotFound));
    md.set_inode_in_bitmap(0);
    let back = md.load_inode(0).ok().unwrap();
    assert_eq!(back.name, "dir");
    assert_eq!(back.file_type, FileType::Directory);
    let mut medium = new_medium();
    assert!(inode.persist(&mut medium, &md.super_block).is_ok());
    let again = Inode::load(&medium, 0, &md.super_block).ok().unwrap();
    assert_eq!(again.name, "dir");
    let bytes = medium.into_bytes();
    assert_eq!(&bytes[3 * 4096..3 * 4096 + 2], &[0, 0]);
    assert_eq!(&bytes[3 * 4096 + 4..3 * 4096 + 7], b"dir");
}

#[test]
fn inode_rejects_corrupt_record() {
    let mut bytes = vec![0u8; 256];
    bytes[4] = b'a';
    bytes[136] = 7;
    assert_eq!(Inode::deserialize(&bytes).err(), Some(FsError::CorruptLayout));
    bytes[136] = 1;
    bytes[5] = 0xFF;
    assert_eq!(Inode::deserialize(&bytes).err(), Some(FsError::CorruptLayout));
    bytes[5] = 0;
    let ok = Inode::deserialize(&bytes).ok().unwrap();
    assert_eq!(ok.name, "a");
    assert_eq!(ok.file_type, FileType::Directory);
}

#[test]
fn create_new_does_not_touch_bitmap() {
    let md = new_metadata();
    let a = Inode::create_new(0, "a", FileType::File, &md).ok().unwrap();
    let b = Inode::create_new(0, "b", FileType::File, &md).ok().unwrap();
    assert_eq!(a.inode_number, 0);
    assert_eq!(b.inode_number, 0);
    assert_eq!(a.file_size, 0);
    assert_eq!(a.data_blocks, [0u16; 32]);
}

#[test]
fn latest_version() {
    assert_eq!(get_latest_version(), [0, 0, 1]);
    assert!(is_valid_version(&[0, 0, 1]));
    assert!(!is_valid_version(&[0, 0, 2]));
}

#[test]
fn path_names() {
    let s = String::from("héllo");
    assert_eq!(s.to_le_bytes(), "héllo".as_bytes());
    assert_eq!(Path::to_String(&s), "héllo");
    let r: &str = "abc";
    assert_eq!(r.to_String(), "abc");
    let good: &[u8] = b"xyz";
    assert_eq!(good.to_String(), "xyz");
    let bad: &[u8] = &[0xFF, 0xFE];
    assert_eq!(bad.to_String(), "");
    assert_eq!(bad.to_le_bytes(), &[0xFF, 0xFE]);
}

#[test]
fn block_defaults() {
    assert_eq!(BlockDataType::default(), BlockDataType::Other);
    let b = Block::default();
    assert_eq!(b.block_number, 0);
    assert!(b.data.is_empty());
    assert_eq!(FileType::default(), FileType::File);
}

#[test]
fn memory_medium_bounds() {
    let mut m = MemoryMedium::new(8);
    assert!(m.write_all(4, 4, &[1, 2, 3, 4]).is_ok());
    assert_eq!(m.write_all(6, 4, &[1, 2, 3, 4]), Err(FsError::IoError));
    let mut buf = vec![0u8; 3];
    assert!(m.read_all(5, 3, &mut buf).is_ok());
    assert_eq!(buf, vec![2, 3, 4]);
    assert_eq!(m.read_all(7, 3, &mut buf), Err(FsError::IoError));
    assert_eq!(m.into_bytes(), vec![0, 0, 0, 0, 1, 2, 3, 4]);
}

#[test]
fn lookup_of_unused_inode_fails() {
    let fs = Ffs::new(new_medium(), TEST_FS_SIZE, BLOCK_SIZE, BYTES_PER_INODE).ok().unwrap();
    assert_eq!(Directory::load(5, &fs.metadata).err(), Some(FsError::NotFound));
    assert_eq!(fs.metadata.load_inode(60000).err(), Some(FsError::NotFound));
    assert_eq!(
        Inode::load(&fs.metadata.medium, 9999, &fs.metadata.super_block).err(),
        Some(FsError::NotFound)
    );
    assert!(Directory::load(0, &fs.metadata).is_ok());
}

#[test]
fn load_of_blank_medium_fails() {
    let r = Ffs::load(new_medium());
    assert_eq!(r.err().map(|e| e == FsError::CorruptLayout), Some(true));
}
