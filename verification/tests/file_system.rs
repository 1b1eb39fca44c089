use rcore_os::efs::{is_valid_name, DirEntry, EasyFileSystem};
use rcore_os::fs::{open_file, File, FileHandle, OSInode, OpenFlags, StatMode, Stdin, Stdout};
use rcore_os::mm::MemorySet;
use rcore_os::syscall::{
    sys_close, sys_fstat, sys_linkat, sys_open, sys_read, sys_unlinkat, sys_write, ReadOutcome,
    WriteOutcome,
};
use rcore_os::task::{TaskContext, TaskControlBlock, TaskManager};

fn one_task() -> TaskManager {
    let t = TaskControlBlock::new(MemorySet::new_bare(), TaskContext::zero_init());
    TaskManager::new(vec![t])
}

fn read_all(tm: &mut TaskManager, fs: &EasyFileSystem, fd: usize, len: usize) -> Vec<u8> {
    match sys_read(tm, fs, fd, len) {
        ReadOutcome::Read(data) => data,
        other => panic!("unexpected read outcome {:?}", other),
    }
}

#[test]
fn link_unlink_fstat_scenario() {
    let mut fs = EasyFileSystem::create(2, 64, 4096);
    let mut tm = one_task();
    let test_str = "Hello, world!";
    let fd = sys_open(&mut tm, &mut fs, "fname2", OpenFlags::CREATE | OpenFlags::WRONLY);
    assert_eq!(fd, 3);
    let fd = fd as usize;
    assert_eq!(sys_linkat(&mut fs, "fname2", "linkname0"), 0);
    let stat = sys_fstat(&tm, &fs, fd).unwrap();
    assert_eq!(stat.nlink, 2);
    assert_eq!(sys_linkat(&mut fs, "fname2", "linkname1"), 0);
    assert_eq!(sys_linkat(&mut fs, "fname2", "linkname2"), 0);
    let stat = sys_fstat(&tm, &fs, fd).unwrap();
    assert_eq!(stat.nlink, 4);
    assert_eq!(sys_write(&mut tm, &mut fs, fd, test_str.as_bytes()), WriteOutcome::Written(13));
    assert_eq!(sys_close(&mut tm, fd), 0);

    assert_eq!(sys_unlinkat(&mut fs, "fname2"), 0);
    let fd = sys_open(&mut tm, &mut fs, "linkname0", OpenFlags::RDONLY);
    assert_eq!(fd, 3);
    let fd = fd as usize;
    let data = read_all(&mut tm, &fs, fd, 100);
    assert_eq!(test_str, core::str::from_utf8(&data).unwrap());
    let stat2 = sys_fstat(&tm, &fs, fd).unwrap();
    assert_eq!(stat2.dev, stat.dev);
    assert_eq!(stat2.ino, stat.ino);
    assert_eq!(stat2.nlink, 3);

    assert_eq!(sys_unlinkat(&mut fs, "linkname1"), 0);
    assert_eq!(sys_unlinkat(&mut fs, "linkname2"), 0);
    let stat2 = sys_fstat(&tm, &fs, fd).unwrap();
    assert_eq!(stat2.nlink, 1);
    assert_eq!(sys_close(&mut tm, fd), 0);
    assert_eq!(sys_unlinkat(&mut fs, "linkname0"), 0);
    let root = fs.root_inode();
    assert!(root.ls(&fs).is_empty());
}

#[test]
fn linkat_rejects_same_name_and_missing_file() {
    let mut fs = EasyFileSystem::create(2, 64, 4096);
    let root = fs.root_inode();
    root.create(&mut fs, "a").unwrap();
    assert_eq!(sys_linkat(&mut fs, "a", "a"), -1);
    assert_eq!(sys_linkat(&mut fs, "missing", "b"), -1);
    assert_eq!(root.ls(&fs), vec!["a".to_string()]);
}

#[test]
fn unlinkat_missing_name_fails() {
    let mut fs = EasyFileSystem::create(2, 64, 4096);
    assert_eq!(sys_unlinkat(&mut fs, "nothing"), -1);
}

#[test]
fn unlinkat_clears_last_name_only() {
    let mut fs = EasyFileSystem::create(2, 64, 4096);
    let root = fs.root_inode();
    let f = root.create(&mut fs, "f").unwrap();
    f.write_at(&mut fs, 0, b"data");
    assert_eq!(sys_unlinkat(&mut fs, "f"), 0);
    let mut buf = [0u8; 4];
    assert_eq!(f.read_at(&fs, 0, &mut buf), 0);

    let g = root.create(&mut fs, "g").unwrap();
    g.write_at(&mut fs, 0, b"keep");
    root.link(&mut fs, "g", "h").unwrap();
    assert_eq!(sys_unlinkat(&mut fs, "g"), 0);
    assert_eq!(g.read_at(&fs, 0, &mut buf), 4);
    assert_eq!(&buf, b"keep");
}

#[test]
fn create_finds_and_refuses_duplicates() {
    let mut fs = EasyFileSystem::create(2, 64, 4096);
    let root = fs.root_inode();
    assert!(root.find(&fs, "x").is_none());
    let x = root.create(&mut fs, "x").unwrap();
    assert_eq!(root.find(&fs, "x"), Some(x));
    assert!(root.create(&mut fs, "x").is_none());
    assert_eq!(fs.inode_id_of(&x), Some(1));
    // Inode 1 lies in the first inode block, at the second slot.
    assert_eq!((x.block_id, x.block_offset), (2, 128));
    let y = root.create(&mut fs, "y").unwrap();
    assert_eq!(fs.get_disk_inode_pos(5), (3, 128));
    assert_eq!(fs.inode_id_of(&y), Some(2));
}

#[test]
fn unlink_moves_last_entry_into_place() {
    let mut fs = EasyFileSystem::create(2, 64, 4096);
    let root = fs.root_inode();
    root.create(&mut fs, "a").unwrap();
    root.create(&mut fs, "b").unwrap();
    root.create(&mut fs, "c").unwrap();
    assert_eq!(root.unlink(&mut fs, "a"), 0);
    assert_eq!(root.ls(&fs), vec!["c".to_string(), "b".to_string()]);
    assert_eq!(root.unlink(&mut fs, "a"), -1);
}

#[test]
fn link_counts_follow_links() {
    let mut fs = EasyFileSystem::create(2, 64, 4096);
    let root = fs.root_inode();
    let a = root.create(&mut fs, "a").unwrap();
    let b = root.create(&mut fs, "b").unwrap();
    assert_eq!(root.get_link_num(&fs, a.block_id, a.block_offset), 1);
    let l = root.link(&mut fs, "a", "a2").unwrap();
    assert_eq!(l, a);
    assert_eq!(root.get_link_num(&fs, a.block_id, a.block_offset), 2);
    assert_eq!(root.get_link_num(&fs, b.block_id, b.block_offset), 1);
    assert!(root.link(&mut fs, "zz", "a3").is_none());
    assert_eq!(root.find(&fs, "a2"), Some(a));
}

#[test]
fn write_then_read_back_with_zero_gap() {
    let mut fs = EasyFileSystem::create(2, 64, 4096);
    let root = fs.root_inode();
    let f = root.create(&mut fs, "f").unwrap();
    assert_eq!(f.write_at(&mut fs, 4, b"xyz"), 3);
    let mut buf = [9u8; 10];
    assert_eq!(f.read_at(&fs, 0, &mut buf), 7);
    assert_eq!(&buf, &[0, 0, 0, 0, b'x', b'y', b'z', 9, 9, 9]);
    assert_eq!(f.write_at(&mut fs, 1, b"ab"), 2);
    let mut buf = [0u8; 3];
    assert_eq!(f.read_at(&fs, 0, &mut buf), 3);
    assert_eq!(&buf, &[0, b'a', b'b']);
    let mut buf = [0u8; 3];
    assert_eq!(f.read_at(&fs, 7, &mut buf), 0);
    f.clear(&mut fs);
    assert_eq!(f.read_at(&fs, 0, &mut buf), 0);
}

#[test]
fn open_flags_decode() {
    assert!(OpenFlags::from_bits(0x800).is_none());
    let f = OpenFlags::from_bits(OpenFlags::CREATE | OpenFlags::RDWR).unwrap();
    assert!(f.contains(OpenFlags::CREATE));
    assert!(!f.contains(OpenFlags::TRUNC));
    assert_eq!(f.read_write(), (true, true));
    assert_eq!(OpenFlags::from_bits(OpenFlags::RDONLY).unwrap().read_write(), (true, false));
    assert_eq!(OpenFlags::from_bits(OpenFlags::WRONLY).unwrap().read_write(), (false, true));
}

#[test]
fn open_file_truncates_and_creates() {
    let mut fs = EasyFileSystem::create(2, 64, 4096);
    assert!(open_file(&mut fs, "f", OpenFlags::from_bits(OpenFlags::RDONLY).unwrap()).is_none());
    let mut f = open_file(&mut fs, "f", OpenFlags::from_bits(OpenFlags::CREATE | OpenFlags::RDWR).unwrap()).unwrap();
    assert_eq!(f.write(&mut fs, b"hello"), 5);
    assert_eq!(f.offset, 5);
    let mut g = open_file(&mut fs, "f", OpenFlags::from_bits(OpenFlags::RDONLY).unwrap()).unwrap();
    assert!(g.readable() && !g.writable());
    assert_eq!(g.read(&fs, 3), b"hel".to_vec());
    assert_eq!(g.read(&fs, 10), b"lo".to_vec());
    assert_eq!(g.read(&fs, 10), Vec::<u8>::new());
    let mut h = open_file(&mut fs, "f", OpenFlags::from_bits(OpenFlags::TRUNC).unwrap()).unwrap();
    assert_eq!(h.read(&fs, 10), Vec::<u8>::new());
    let again: OSInode = open_file(&mut fs, "f", OpenFlags::from_bits(OpenFlags::CREATE).unwrap()).unwrap();
    assert_eq!(again.offset, 0);
}

#[test]
fn descriptors_reuse_lowest_free_slot() {
    let mut fs = EasyFileSystem::create(2, 64, 4096);
    let mut tm = one_task();
    let rw = OpenFlags::CREATE | OpenFlags::RDWR;
    assert_eq!(sys_open(&mut tm, &mut fs, "a", rw), 3);
    assert_eq!(sys_open(&mut tm, &mut fs, "b", rw), 4);
    assert_eq!(sys_close(&mut tm, 3), 0);
    assert_eq!(sys_close(&mut tm, 3), -1);
    assert_eq!(sys_close(&mut tm, 99), -1);
    assert_eq!(sys_open(&mut tm, &mut fs, "c", rw), 3);
    assert_eq!(sys_close(&mut tm, 0), 0);
    assert_eq!(sys_open(&mut tm, &mut fs, "a", OpenFlags::RDONLY), 0);
    assert_eq!(sys_open(&mut tm, &mut fs, "missing", OpenFlags::RDONLY), -1);
    assert_eq!(sys_open(&mut tm, &mut fs, "d", rw), 5);
}

#[test]
fn read_write_rights_and_console() {
    let mut fs = EasyFileSystem::create(2, 64, 4096);
    let mut tm = one_task();
    assert_eq!(sys_write(&mut tm, &mut fs, 1, b"hi"), WriteOutcome::Console);
    assert_eq!(sys_write(&mut tm, &mut fs, 0, b"hi"), WriteOutcome::Failed);
    assert!(matches!(sys_read(&mut tm, &fs, 0, 1), ReadOutcome::Console));
    assert!(matches!(sys_read(&mut tm, &fs, 1, 1), ReadOutcome::Failed));
    assert!(matches!(sys_read(&mut tm, &fs, 42, 1), ReadOutcome::Failed));
    assert_eq!(sys_write(&mut tm, &mut fs, 42, b"hi"), WriteOutcome::Failed);
    let fd = sys_open(&mut tm, &mut fs, "w", OpenFlags::CREATE | OpenFlags::WRONLY) as usize;
    assert!(matches!(sys_read(&mut tm, &fs, fd, 4), ReadOutcome::Failed));
    assert_eq!(sys_write(&mut tm, &mut fs, fd, b"abc"), WriteOutcome::Written(3));
    assert_eq!(sys_write(&mut tm, &mut fs, fd, b"de"), WriteOutcome::Written(2));
    let rd = sys_open(&mut tm, &mut fs, "w", OpenFlags::RDONLY) as usize;
    assert_eq!(sys_write(&mut tm, &mut fs, rd, b"x"), WriteOutcome::Failed);
    assert_eq!(read_all(&mut tm, &fs, rd, 2), b"ab".to_vec());
    assert_eq!(read_all(&mut tm, &fs, rd, 10), b"cde".to_vec());
    assert!(sys_fstat(&tm, &fs, 77).is_none());
    let st = sys_fstat(&tm, &fs, rd).unwrap();
    assert_eq!(st.mode, StatMode::File);
    assert_eq!(st.mode.bits(), 0o100000);
    assert_eq!(st.ino, 1);
    assert_eq!(st.pad, [0u64; 7]);
}

#[test]
fn names_that_entries_can_hold() {
    assert!(is_valid_name(""));
    assert!(is_valid_name("abcdefghijklmnopqrstuvwxyz0"));
    assert!(!is_valid_name("abcdefghijklmnopqrstuvwxyz01"));
    assert!(!is_valid_name("a\0b"));
    let e = DirEntry::new("name", 7);
    assert_eq!(e.name(), "name");
    assert_eq!(e.inode_id(), 7);
}

#[test]
fn file_handles_rights() {
    assert!(Stdin.readable() && !Stdin.writable());
    assert!(!Stdout.readable() && Stdout.writable());
    let mut fs = EasyFileSystem::create(2, 64, 4096);
    let root = fs.root_inode();
    let h = root.create(&mut fs, "f").unwrap();
    let f = FileHandle::Inode(OSInode::new(true, false, h));
    assert!(f.readable() && !f.writable());
    assert_eq!(OSInode::new(false, true, h).get_inode_pos(), (h.block_id, h.block_offset));
    assert_eq!(OSInode::new(false, true, h).get_inode_id(&fs), 1);
}

#[test]
fn data_blocks_are_taken_and_given_back() {
    let mut fs = EasyFileSystem::create(2, 64, 4096);
    assert_eq!(fs.free_data_blocks(), 4096);
    let root = fs.root_inode();
    // The first entry gives the root directory its first block.
    let f = root.create(&mut fs, "f").unwrap();
    assert_eq!(fs.free_data_blocks(), 4095);
    // 600 bytes take two data blocks.
    assert_eq!(f.write_at(&mut fs, 0, &[7u8; 600]), 600);
    assert_eq!(fs.free_data_blocks(), 4093);
    // Writing inside the file takes nothing more.
    assert_eq!(f.write_at(&mut fs, 10, b"abc"), 3);
    assert_eq!(fs.free_data_blocks(), 4093);
    f.clear(&mut fs);
    assert_eq!(fs.free_data_blocks(), 4095);
    // 29 data blocks go past the 28 direct ones and take a first-level index block too.
    assert_eq!(f.write_at(&mut fs, 0, &vec![1u8; 28 * 512 + 1]), 28 * 512 + 1);
    assert_eq!(fs.free_data_blocks(), 4095 - 30);
    f.clear(&mut fs);
    assert_eq!(fs.free_data_blocks(), 4095);
}

#[test]
fn unlinking_the_last_name_frees_the_file_blocks() {
    let mut fs = EasyFileSystem::create(2, 64, 4096);
    let root = fs.root_inode();
    let g = root.create(&mut fs, "g").unwrap();
    g.write_at(&mut fs, 0, &[3u8; 1024]);
    root.link(&mut fs, "g", "h").unwrap();
    assert_eq!(fs.free_data_blocks(), 4096 - 1 - 2);
    // Another name still leads to the file: its blocks stay.
    assert_eq!(sys_unlinkat(&mut fs, "g"), 0);
    assert_eq!(fs.free_data_blocks(), 4096 - 1 - 2);
    // The last name goes: the file's two blocks go back.
    assert_eq!(sys_unlinkat(&mut fs, "h"), 0);
    assert_eq!(fs.free_data_blocks(), 4096 - 1);
}
