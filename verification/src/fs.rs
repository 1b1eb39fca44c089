//! Open files: the flags of `open`, the files that descriptors hold, and file status.
use vstd::prelude::*;
use crate::config::MAX_FILE_SIZE;
use crate::efs::{blocks_needed, total_blocks, lookup, read_len, valid_name, write_bytes, EasyFileSystem, FsView, Inode};
use crate::vfs::same_layout;

verus! {

/// Flags of the `open` system call.
#[derive(Clone, Copy, Debug, PartialEq, Eq, Structural)]
pub struct OpenFlags {
    /// The raw flag bits.
    pub bits: u32,
}

/// Every flag bit that `OpenFlags` knows.
pub const OPEN_FLAGS_ALL: u32 = 0x603;

/// Whether the bits name only known flags.
pub open spec fn known_open_flags(bits: u32) -> bool {
    bits & !OPEN_FLAGS_ALL == 0
}

/// Whether a file opened with these flag bits may be read and written.
pub open spec fn read_write_of(bits: u32) -> (bool, bool) {
    if bits == 0 {
        (true, false)
    } else if bits & OpenFlags::WRONLY != 0 {
        (false, true)
    } else {
        (true, true)
    }
}

impl OpenFlags {
    /// Read only.
    pub const RDONLY: u32 = 0;
    /// Write only.
    pub const WRONLY: u32 = 0x1;
    /// Read and write.
    pub const RDWR: u32 = 0x2;
    /// Create the file if it is missing, empty it if it exists.
    pub const CREATE: u32 = 0x200;
    /// Empty the file.
    pub const TRUNC: u32 = 0x400;

    /// The flags that `bits` names, or `None` when it holds an unknown bit.
    pub fn from_bits(bits: u32) -> (r: Option<OpenFlags>)
        ensures
            match r {
                Some(f) => known_open_flags(bits) && f.bits == bits,
                None => !known_open_flags(bits),
            },
    {
        if bits & !OPEN_FLAGS_ALL == 0 {
            Some(OpenFlags { bits })
        } else {
            None
        }
    }

    /// Whether every bit of `other` is set here.
    pub fn contains(&self, other: u32) -> (b: bool)
        ensures
            b == (self.bits & other == other),
    {
        self.bits & other == other
    }

    /// Whether a file opened with these flags may be read, and written.
    pub fn read_write(&self) -> (rw: (bool, bool))
        ensures
            rw == read_write_of(self.bits),
    {
        if self.bits == 0 {
            (true, false)
        } else if self.bits & OpenFlags::WRONLY != 0 {
            (false, true)
        } else {
            (true, true)
        }
    }
}

/// Whether these flag bits ask for a missing file to be created.
pub open spec fn wants_create(bits: u32) -> bool {
    bits & OpenFlags::CREATE == OpenFlags::CREATE
}

/// Whether these flag bits ask for the file to be emptied.
pub open spec fn wants_trunc(bits: u32) -> bool {
    bits & OpenFlags::TRUNC == OpenFlags::TRUNC
}

/// What a descriptor can do with a file.
pub trait File {
    /// Whether the file may be read.
    fn readable(&self) -> bool;

    /// Whether the file may be written.
    fn writable(&self) -> bool;
}

/// The console input.
#[derive(Clone, Copy, Debug, PartialEq, Eq, Structural)]
pub struct Stdin;

/// The console output.
#[derive(Clone, Copy, Debug, PartialEq, Eq, Structural)]
pub struct Stdout;

impl File for Stdin {
    fn readable(&self) -> (b: bool)
        ensures
            b,
    {
        true
    }

    fn writable(&self) -> (b: bool)
        ensures
            !b,
    {
        false
    }
}

impl File for Stdout {
    fn readable(&self) -> (b: bool)
        ensures
            !b,
    {
        false
    }

    fn writable(&self) -> (b: bool)
        ensures
            b,
    {
        true
    }
}

/// A file of easy-fs opened by a task: its access rights, the inode and the
/// current offset.
#[derive(Clone, Copy, Debug, PartialEq, Eq, Structural)]
pub struct OSInode {
    /// Whether the file may be read.
    pub readable: bool,
    /// Whether the file may be written.
    pub writable: bool,
    /// Where the next read or write starts.
    pub offset: usize,
    /// The inode.
    pub inode: Inode,
}

impl File for OSInode {
    fn readable(&self) -> (b: bool)
        ensures
            b == self.readable,
    {
        self.readable
    }

    fn writable(&self) -> (b: bool)
        ensures
            b == self.writable,
    {
        self.writable
    }
}

impl OSInode {
    /// A freshly opened file, at offset 0.
    pub fn new(readable: bool, writable: bool, inode: Inode) -> (f: OSInode)
        ensures
            f == (OSInode { readable, writable, offset: 0, inode }),
    {
        OSInode { readable, writable, offset: 0, inode }
    }

    /// The id of the opened inode.
    pub fn get_inode_id(&self, fs: &EasyFileSystem) -> (id: u64)
        requires
            fs@.wf(),
            fs@.is_file(self.inode),
        ensures
            id as int == fs@.file_id(self.inode),
    {
        let r = fs.inode_id_of(&self.inode);
        proof {
            let w = fs@.file_id(self.inode);
            assert(fs@.names_inode(self.inode, w));
            match r {
                Some(id) => crate::efs::lemma_inode_pos_injective(fs@.inode_area_start_block, id as int, w),
                None => {},
            }
        }
        r.unwrap() as u64
    }

    /// Where the opened inode lies on disk.
    pub fn get_inode_pos(&self) -> (pos: (usize, usize))
        ensures
            pos == (self.inode.block_id, self.inode.block_offset),
    {
        (self.inode.block_id, self.inode.block_offset)
    }

    /// Reads up to `len` bytes from the current offset, and moves the offset past them.
    pub fn read(&mut self, fs: &EasyFileSystem, len: usize) -> (data: Vec<u8>)
        requires
            fs@.wf(),
            fs@.is_file(old(self).inode),
        ensures
            ({
                let file = fs@.files[fs@.file_id(old(self).inode)];
                let n = read_len(file.len() as int, old(self).offset as int, len as int);
                &&& data@ == Seq::new(n as nat, |k: int| file[old(self).offset + k])
                &&& *final(self) == (OSInode { offset: (old(self).offset + n) as usize, ..*old(self) })
            }),
    {
        let mut buf: Vec<u8> = vec![0u8; len];
        let n = self.inode.read_at(fs, self.offset, buf.as_mut_slice());
        let ghost file = fs@.files[fs@.file_id(self.inode)];
        let mut data: Vec<u8> = Vec::new();
        let mut k: usize = 0;
        while k < n
            invariant
                n <= buf@.len(),
                k <= n,
                data@.len() == k,
                forall|j: int| 0 <= j < n ==> #[trigger] buf@[j] == file[self.offset + j],
                forall|j: int| 0 <= j < k ==> #[trigger] data@[j] == file[self.offset + j],
            decreases n - k,
        {
            data.push(buf[k]);
            k = k + 1;
        }
        proof {
            assert(data@ =~= Seq::new(n as nat, |k: int| file[self.offset + k]));
        }
        self.offset = self.offset + n;
        data
    }

    /// Writes `buf` at the current offset, and moves the offset past it.
    pub fn write(&mut self, fs: &mut EasyFileSystem, buf: &[u8]) -> (n: usize)
        requires
            old(fs)@.wf(),
            old(fs)@.is_file(old(self).inode),
            old(self).offset + buf@.len() <= MAX_FILE_SIZE,
            old(fs)@.grow_blocks_available(old(fs)@.file_id(old(self).inode), old(self).offset + buf@.len()),
        ensures
            final(fs)@.wf(),
            same_layout(old(fs)@, final(fs)@),
            final(fs)@.entries == old(fs)@.entries,
            n == buf@.len(),
            ({
                let id = old(fs)@.file_id(old(self).inode);
                &&& final(fs)@.files == old(fs)@.files.update(
                    id,
                    write_bytes(old(fs)@.files[id], old(self).offset as int, buf@),
                )
                &&& final(fs)@.free_data_blocks == old(fs)@.free_data_blocks - blocks_needed(
                    old(fs)@.files[id].len() as int,
                    old(self).offset + buf@.len(),
                )
            }),
            *final(self) == (OSInode { offset: (old(self).offset + n) as usize, ..*old(self) }),
    {
        let n = self.inode.write_at(fs, self.offset, buf);
        self.offset = self.offset + n;
        n
    }
}

/// What a file descriptor holds: the console, or an opened easy-fs file.
#[derive(Clone, Copy, Debug, PartialEq, Eq, Structural)]
pub enum FileHandle {
    /// The console input.
    Stdin(Stdin),
    /// The console output.
    Stdout(Stdout),
    /// An opened easy-fs file.
    Inode(OSInode),
}

/// Whether the file may be read.
pub open spec fn handle_readable(f: FileHandle) -> bool {
    match f {
        FileHandle::Stdin(_) => true,
        FileHandle::Stdout(_) => false,
        FileHandle::Inode(i) => i.readable,
    }
}

/// Whether the file may be written.
pub open spec fn handle_writable(f: FileHandle) -> bool {
    match f {
        FileHandle::Stdin(_) => false,
        FileHandle::Stdout(_) => true,
        FileHandle::Inode(i) => i.writable,
    }
}

impl File for FileHandle {
    fn readable(&self) -> (b: bool)
        ensures
            b == handle_readable(*self),
    {
        match self {
            FileHandle::Stdin(f) => f.readable(),
            FileHandle::Stdout(f) => f.readable(),
            FileHandle::Inode(f) => f.readable(),
        }
    }

    fn writable(&self) -> (b: bool)
        ensures
            b == handle_writable(*self),
    {
        match self {
            FileHandle::Stdin(f) => f.writable(),
            FileHandle::Stdout(f) => f.writable(),
            FileHandle::Inode(f) => f.writable(),
        }
    }
}

/// The mode of an inode: a directory or a regular file.
#[derive(Clone, Copy, Debug, PartialEq, Eq, Structural)]
pub enum StatMode {
    /// No mode.
    Null,
    /// A directory.
    Dir,
    /// A regular file.
    File,
}

impl StatMode {
    /// The mode's bits as the `stat` structure holds them.
    pub fn bits(&self) -> (b: u32)
        ensures
            b == match self {
                StatMode::Null => 0u32,
                StatMode::Dir => 0o040000u32,
                StatMode::File => 0o100000u32,
            },
    {
        match self {
            StatMode::Null => 0,
            StatMode::Dir => 0o040000,
            StatMode::File => 0o100000,
        }
    }
}

/// The status of an inode, as `fstat` reports it.
#[derive(Clone, Copy, Debug)]
pub struct Stat {
    /// Device number.
    pub dev: u64,
    /// Inode number.
    pub ino: u64,
    /// Kind of inode.
    pub mode: StatMode,
    /// Number of hard links.
    pub nlink: u32,
    /// Padding.
    pub pad: [u64; 7],
}

/// The file system after `open_file` opens `name` with flag bits `bits`.
pub open spec fn open_fs_spec(fs: FsView, name: Seq<char>, bits: u32) -> FsView {
    match lookup(fs.entries, name) {
        Some(id) => if wants_create(bits) || wants_trunc(bits) {
            FsView {
                files: fs.files.update(id as int, Seq::<u8>::empty()),
                free_data_blocks: (fs.free_data_blocks + total_blocks(fs.files[id as int].len() as int)) as u32,
                ..fs
            }
        } else {
            fs
        },
        None => if wants_create(bits) {
            FsView {
                files: fs.files.push(Seq::<u8>::empty()),
                entries: fs.entries.push((name, fs.files.len() as u32)),
                free_data_blocks: (fs.free_data_blocks - fs.dir_grow_blocks()) as u32,
                ..fs
            }
        } else {
            fs
        },
    }
}

/// The file that `open_file` opens for `name` with flag bits `bits`, if any.
pub open spec fn open_result_spec(fs: FsView, name: Seq<char>, bits: u32) -> Option<OSInode> {
    let (readable, writable) = read_write_of(bits);
    match lookup(fs.entries, name) {
        Some(id) => Some(OSInode::new_spec(readable, writable, fs.handle_of(id as int))),
        None => if wants_create(bits) {
            Some(OSInode::new_spec(readable, writable, fs.handle_of(fs.files.len() as int)))
        } else {
            None
        },
    }
}

impl OSInode {
    /// A freshly opened file, as a value.
    pub open spec fn new_spec(readable: bool, writable: bool, inode: Inode) -> OSInode {
        OSInode { readable, writable, offset: 0, inode }
    }
}

/// Opens the file called `name` in the root directory. With `CREATE` a
/// missing file is created and an existing one emptied; with `TRUNC` an
/// existing file is emptied.
pub fn open_file(fs: &mut EasyFileSystem, name: &str, flags: OpenFlags) -> (r: Option<OSInode>)
    requires
        old(fs)@.wf(),
        wants_create(flags.bits) && lookup(old(fs)@.entries, name@) is None ==> {
            &&& valid_name(name@)
            &&& old(fs)@.dir_has_room()
            &&& old(fs)@.dir_blocks_available()
            &&& old(fs)@.inode_available()
        },
    ensures
        final(fs)@.wf(),
        final(fs)@ == open_fs_spec(old(fs)@, name@, flags.bits),
        r == open_result_spec(old(fs)@, name@, flags.bits),
        r matches Some(f) ==> final(fs)@.is_file(f.inode),
{
    let root = fs.root_inode();
    let (readable, writable) = flags.read_write();
    if flags.contains(OpenFlags::CREATE) {
        if let Some(inode) = root.find(fs, name) {
            proof {
                crate::efs::lemma_first_index(fs@.entries, name@);
                let id = lookup(fs@.entries, name@).unwrap() as int;
                assert(fs@.names_inode(inode, id));
            }
            inode.clear(fs);
            proof {
                let id = lookup(old(fs)@.entries, name@).unwrap() as int;
                assert(fs@.names_inode(inode, id));
            }
            Some(OSInode::new(readable, writable, inode))
        } else {
            match root.create(fs, name) {
                Some(inode) => {
                    proof {
                        assert(fs@.names_inode(inode, old(fs)@.files.len() as int));
                    }
                    Some(OSInode::new(readable, writable, inode))
                },
                None => None,
            }
        }
    } else {
        match root.find(fs, name) {
            Some(inode) => {
                proof {
                    crate::efs::lemma_first_index(fs@.entries, name@);
                    let id = lookup(fs@.entries, name@).unwrap() as int;
                    assert(fs@.names_inode(inode, id));
                }
                if flags.contains(OpenFlags::TRUNC) {
                    inode.clear(fs);
                }
                proof {
                    let id = lookup(old(fs)@.entries, name@).unwrap() as int;
                    assert(fs@.names_inode(inode, id));
                }
                Some(OSInode::new(readable, writable, inode))
            },
            None => None,
        }
    }
}

} // verus!
