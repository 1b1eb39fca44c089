//! System calls: decoding a call, and the file, memory, task and time calls.
use vstd::prelude::*;
use crate::config::{MAX_FILE_SIZE, PAGE_SIZE};
use crate::efs::{
    blocks_needed, total_blocks, count_at_pos, first_index, lemma_first_index, lookup, read_len, write_bytes, EasyFileSystem,
    FsView,
};
use crate::fs::{
    handle_readable, handle_writable, known_open_flags, open_file, open_fs_spec,
    open_result_spec, File, FileHandle, OSInode, OpenFlags, Stat, StatMode,
};
use crate::mm::{ceil_spec, floor_spec, first_area_starting_at, has_area_exactly, range_overlaps, va_limit, MapPermission, VirtAddr};
use crate::task::{
    alloc_fd_spec, area_of, current_became, current_view, first_free_fd, suspend_current_and_run_next,
    task_mmap, task_munmap, TaskManager, TaskView,
};

verus! {

/// Id of the `unlinkat` system call.
pub const SYSCALL_UNLINKAT: usize = 35;
/// Id of the `linkat` system call.
pub const SYSCALL_LINKAT: usize = 37;
/// Id of the `open` system call.
pub const SYSCALL_OPEN: usize = 56;
/// Id of the `close` system call.
pub const SYSCALL_CLOSE: usize = 57;
/// Id of the `read` system call.
pub const SYSCALL_READ: usize = 63;
/// Id of the `write` system call.
pub const SYSCALL_WRITE: usize = 64;
/// Id of the `fstat` system call.
pub const SYSCALL_FSTAT: usize = 80;
/// Id of the `exit` system call.
pub const SYSCALL_EXIT: usize = 93;
/// Id of the `yield` system call.
pub const SYSCALL_YIELD: usize = 124;
/// Id of the `get_time` system call.
pub const SYSCALL_GET_TIME: usize = 169;
/// Id of the `mmap` system call.
pub const SYSCALL_MMAP: usize = 222;
/// Id of the `munmap` system call.
pub const SYSCALL_MUNMAP: usize = 215;

/// A decoded system call and its arguments.
#[derive(Clone, Copy, Debug, PartialEq, Eq, Structural)]
pub enum SyscallRequest {
    /// `unlinkat(name)`.
    UnlinkAt { name: usize },
    /// `linkat(old_name, new_name)`.
    LinkAt { old_name: usize, new_name: usize },
    /// `open(path, flags)`.
    Open { path: usize, flags: u32 },
    /// `close(fd)`.
    Close { fd: usize },
    /// `read(fd, buf, len)`.
    Read { fd: usize, buf: usize, len: usize },
    /// `fstat(fd, st)`.
    Fstat { fd: usize, st: usize },
    /// `write(fd, buf, len)`.
    Write { fd: usize, buf: usize, len: usize },
    /// `exit(exit_code)`.
    Exit { exit_code: i32 },
    /// `yield()`.
    Yield,
    /// `get_time(ts, tz)`.
    GetTime { ts: usize, tz: usize },
    /// `mmap(start, len, prot)`.
    Mmap { start: usize, len: usize, prot: usize },
    /// `munmap(start, len)`.
    Munmap { start: usize, len: usize },
    /// A system call id the kernel does not serve.
    Unsupported { syscall_id: usize },
}

/// The system call that id `syscall_id` with arguments `args` names.
pub open spec fn decode_syscall(syscall_id: usize, args: [usize; 3]) -> SyscallRequest {
    if syscall_id == SYSCALL_UNLINKAT {
        SyscallRequest::UnlinkAt { name: args[0] }
    } else if syscall_id == SYSCALL_LINKAT {
        SyscallRequest::LinkAt { old_name: args[0], new_name: args[1] }
    } else if syscall_id == SYSCALL_OPEN {
        SyscallRequest::Open { path: args[0], flags: args[1] as u32 }
    } else if syscall_id == SYSCALL_CLOSE {
        SyscallRequest::Close { fd: args[0] }
    } else if syscall_id == SYSCALL_READ {
        SyscallRequest::Read { fd: args[0], buf: args[1], len: args[2] }
    } else if syscall_id == SYSCALL_FSTAT {
        SyscallRequest::Fstat { fd: args[0], st: args[1] }
    } else if syscall_id == SYSCALL_WRITE {
        SyscallRequest::Write { fd: args[0], buf: args[1], len: args[2] }
    } else if syscall_id == SYSCALL_EXIT {
        SyscallRequest::Exit { exit_code: args[0] as i32 }
    } else if syscall_id == SYSCALL_YIELD {
        SyscallRequest::Yield
    } else if syscall_id == SYSCALL_GET_TIME {
        SyscallRequest::GetTime { ts: args[0], tz: args[1] }
    } else if syscall_id == SYSCALL_MMAP {
        SyscallRequest::Mmap { start: args[0], len: args[1], prot: args[2] }
    } else if syscall_id == SYSCALL_MUNMAP {
        SyscallRequest::Munmap { start: args[0], len: args[1] }
    } else {
        SyscallRequest::Unsupported { syscall_id }
    }
}

/// Decodes system call `syscall_id` with arguments `args`.
pub fn syscall(syscall_id: usize, args: [usize; 3]) -> (r: SyscallRequest)
    ensures
        r == decode_syscall(syscall_id, args),
{
    match syscall_id {
        SYSCALL_UNLINKAT => SyscallRequest::UnlinkAt { name: args[0] },
        SYSCALL_LINKAT => SyscallRequest::LinkAt { old_name: args[0], new_name: args[1] },
        SYSCALL_OPEN => SyscallRequest::Open { path: args[0], flags: args[1] as u32 },
        SYSCALL_CLOSE => SyscallRequest::Close { fd: args[0] },
        SYSCALL_READ => SyscallRequest::Read { fd: args[0], buf: args[1], len: args[2] },
        SYSCALL_FSTAT => SyscallRequest::Fstat { fd: args[0], st: args[1] },
        SYSCALL_WRITE => SyscallRequest::Write { fd: args[0], buf: args[1], len: args[2] },
        SYSCALL_EXIT => SyscallRequest::Exit { exit_code: args[0] as i32 },
        SYSCALL_YIELD => SyscallRequest::Yield,
        SYSCALL_GET_TIME => SyscallRequest::GetTime { ts: args[0], tz: args[1] },
        SYSCALL_MMAP => SyscallRequest::Mmap { start: args[0], len: args[1], prot: args[2] },
        SYSCALL_MUNMAP => SyscallRequest::Munmap { start: args[0], len: args[1] },
        _ => SyscallRequest::Unsupported { syscall_id },
    }
}

/// Every easy-fs file in descriptor table `fd_table` is a file of `fs`.
pub open spec fn fds_valid(fd_table: Seq<Option<FileHandle>>, fs: FsView) -> bool {
    forall|i: int|
        0 <= i < fd_table.len() ==> (#[trigger] fd_table[i] matches Some(FileHandle::Inode(f)) ==> fs.is_file(f.inode))
}

/// The state the file system calls need: a well-formed task manager with a
/// current task, a well-formed file system, and descriptors of every task
/// that name files of that file system.
pub open spec fn kernel_wf(tm: TaskManager, fs: FsView) -> bool {
    &&& tm.wf()
    &&& tm.num_app > 0
    &&& fs.wf()
    &&& forall|k: int| 0 <= k < tm.tasks@.len() ==> fds_valid(#[trigger] tm.tasks@[k].fd_table@, fs)
}

/// The kernel invariant survives a step that keeps every descriptor table but
/// the current task's, keeps the current task's valid, and only grows the file system.
pub proof fn lemma_kernel_wf_step(old_tm: TaskManager, new_tm: TaskManager, old_fs: FsView, new_fs: FsView)
    requires
        kernel_wf(old_tm, old_fs),
        new_tm.wf(),
        new_tm.num_app == old_tm.num_app,
        new_fs.wf(),
        old_fs.inode_area_start_block == new_fs.inode_area_start_block,
        old_fs.files.len() <= new_fs.files.len(),
        new_tm.tasks@.len() == old_tm.tasks@.len(),
        forall|k: int| 0 <= k < new_tm.tasks@.len() && k != old_tm.current_task ==> #[trigger] new_tm.tasks@[k].fd_table@ == old_tm.tasks@[k].fd_table@,
        fds_valid(new_tm.tasks@[old_tm.current_task as int].fd_table@, new_fs),
    ensures
        kernel_wf(new_tm, new_fs),
{
    assert forall|k: int| 0 <= k < new_tm.tasks@.len() implies fds_valid(#[trigger] new_tm.tasks@[k].fd_table@, new_fs) by {
        if k != old_tm.current_task {
            assert(fds_valid(old_tm.tasks@[k].fd_table@, old_fs));
            lemma_fds_valid_grows(old_tm.tasks@[k].fd_table@, old_fs, new_fs);
        }
    }
}

/// A file handle stays a file while the file system only grows.
pub proof fn lemma_is_file_grows(a: FsView, b: FsView, h: crate::efs::Inode)
    requires
        a.is_file(h),
        a.inode_area_start_block == b.inode_area_start_block,
        a.files.len() <= b.files.len(),
    ensures
        b.is_file(h),
{
    let id = a.file_id(h);
    assert(b.names_inode(h, id));
}

/// Descriptors stay valid while the file system only grows.
pub proof fn lemma_fds_valid_grows(t: Seq<Option<FileHandle>>, a: FsView, b: FsView)
    requires
        fds_valid(t, a),
        a.inode_area_start_block == b.inode_area_start_block,
        a.files.len() <= b.files.len(),
    ensures
        fds_valid(t, b),
{
    assert forall|i: int| 0 <= i < t.len() implies (#[trigger] t[i] matches Some(FileHandle::Inode(f)) ==> b.is_file(f.inode)) by {
        if let Some(FileHandle::Inode(f)) = t[i] {
            lemma_is_file_grows(a, b, f.inode);
        }
    }
}

/// Descriptor `fd` of `fd_table` holds a file.
pub open spec fn fd_open(fd_table: Seq<Option<FileHandle>>, fd: usize) -> bool {
    fd < fd_table.len() && fd_table[fd as int] is Some
}

/// What `sys_write` decides.
#[derive(Clone, Copy, Debug, PartialEq, Eq, Structural)]
pub enum WriteOutcome {
    /// The call fails with -1.
    Failed,
    /// The bytes go to the console; the call returns their number.
    Console,
    /// The bytes were written to a file; the call returns their number.
    Written(usize),
}

/// What `sys_read` decides.
#[derive(Debug)]
pub enum ReadOutcome {
    /// The call fails with -1.
    Failed,
    /// The bytes come from the console.
    Console,
    /// The bytes read from a file; the call returns their number.
    Read(Vec<u8>),
}

/// Writing `n` bytes to descriptor `fd` keeps its file within the largest file
/// size, and the data bitmap can give the file the blocks it grows by.
pub open spec fn write_fits(fs: FsView, fd_table: Seq<Option<FileHandle>>, fd: usize, n: int) -> bool {
    fd_open(fd_table, fd) ==> match fd_table[fd as int].unwrap() {
        FileHandle::Inode(f) => f.writable ==> {
            &&& f.offset + n <= MAX_FILE_SIZE
            &&& fs.grow_blocks_available(fs.file_id(f.inode), f.offset + n)
        },
        _ => true,
    }
}

/// The effect of `sys_write`.
pub open spec fn sys_write_spec(
    old_tm: TaskManager,
    new_tm: TaskManager,
    old_fs: FsView,
    new_fs: FsView,
    fd: usize,
    buf: Seq<u8>,
    r: WriteOutcome,
) -> bool {
    let t = current_view(old_tm);
    if !fd_open(t.fd_table, fd) || !handle_writable(t.fd_table[fd as int].unwrap()) {
        r is Failed && new_tm == old_tm && new_fs == old_fs
    } else {
        match t.fd_table[fd as int].unwrap() {
            FileHandle::Inode(f) => {
                let id = old_fs.file_id(f.inode);
                &&& r == WriteOutcome::Written(buf.len() as usize)
                &&& new_fs == FsView {
                    files: old_fs.files.update(id, write_bytes(old_fs.files[id], f.offset as int, buf)),
                    free_data_blocks: (old_fs.free_data_blocks - blocks_needed(
                        old_fs.files[id].len() as int,
                        f.offset + buf.len(),
                    )) as u32,
                    ..old_fs
                }
                &&& current_became(old_tm, new_tm, TaskView {
                    fd_table: t.fd_table.update(
                        fd as int,
                        Some(FileHandle::Inode(OSInode { offset: (f.offset + buf.len()) as usize, ..f })),
                    ),
                    ..t
                })
            },
            _ => r is Console && new_tm == old_tm && new_fs == old_fs,
        }
    }
}

/// Writes `buf` to descriptor `fd` of the current task.
pub fn sys_write(tm: &mut TaskManager, fs: &mut EasyFileSystem, fd: usize, buf: &[u8]) -> (r: WriteOutcome)
    requires
        kernel_wf(*old(tm), old(fs)@),
        write_fits(old(fs)@, current_view(*old(tm)).fd_table, fd, buf@.len() as int),
    ensures
        kernel_wf(*final(tm), final(fs)@),
        sys_write_spec(*old(tm), *final(tm), old(fs)@, final(fs)@, fd, buf@, r),
{
    let cur = tm.current_task;
    if fd >= tm.tasks[cur].fd_table.len() {
        return WriteOutcome::Failed;
    }
    match tm.tasks[cur].fd_table[fd] {
        Some(file) => {
            if !file.writable() {
                return WriteOutcome::Failed;
            }
            match file {
                FileHandle::Inode(f) => {
                    let mut f = f;
                    proof {
                        assert(fds_valid(current_view(*old(tm)).fd_table, old(fs)@));
                        assert(current_view(*old(tm)).fd_table[fd as int] matches Some(FileHandle::Inode(g)) && g == f);
                    }
                    let n = f.write(fs, buf);
                    tm.tasks[cur].fd_table.set(fd, Some(FileHandle::Inode(f)));
                    proof {
                        let t = current_view(*old(tm));
                        assert(tm.tasks@[cur as int].fd_table@ =~= t.fd_table.update(
                            fd as int,
                            Some(FileHandle::Inode(f)),
                        ));
                        assert forall|i: int| 0 <= i < tm.tasks@[cur as int].fd_table@.len() implies (#[trigger] tm.tasks@[cur as int].fd_table@[i] matches Some(FileHandle::Inode(g)) ==> fs@.is_file(g.inode)) by {
                            if let Some(FileHandle::Inode(g)) = t.fd_table[i] {
                                lemma_is_file_grows(old(fs)@, fs@, g.inode);
                            }
                        }
                        lemma_kernel_wf_step(*old(tm), *tm, old(fs)@, fs@);
                    }
                    WriteOutcome::Written(n)
                },
                _ => WriteOutcome::Console,
            }
        },
        None => WriteOutcome::Failed,
    }
}

/// The effect of `sys_read`.
pub open spec fn sys_read_spec(
    old_tm: TaskManager,
    new_tm: TaskManager,
    fs: FsView,
    fd: usize,
    len: usize,
    r: ReadOutcome,
) -> bool {
    let t = current_view(old_tm);
    if !fd_open(t.fd_table, fd) || !handle_readable(t.fd_table[fd as int].unwrap()) {
        r is Failed && new_tm == old_tm
    } else {
        match t.fd_table[fd as int].unwrap() {
            FileHandle::Inode(f) => {
                let file = fs.files[fs.file_id(f.inode)];
                let n = read_len(file.len() as int, f.offset as int, len as int);
                &&& r matches ReadOutcome::Read(data) && data@ == Seq::new(n as nat, |k: int| file[f.offset + k])
                &&& current_became(old_tm, new_tm, TaskView {
                    fd_table: t.fd_table.update(
                        fd as int,
                        Some(FileHandle::Inode(OSInode { offset: (f.offset + n) as usize, ..f })),
                    ),
                    ..t
                })
            },
            _ => r is Console && new_tm == old_tm,
        }
    }
}

/// Reads up to `len` bytes from descriptor `fd` of the current task.
pub fn sys_read(tm: &mut TaskManager, fs: &EasyFileSystem, fd: usize, len: usize) -> (r: ReadOutcome)
    requires
        kernel_wf(*old(tm), fs@),
    ensures
        kernel_wf(*final(tm), fs@),
        sys_read_spec(*old(tm), *final(tm), fs@, fd, len, r),
{
    let cur = tm.current_task;
    if fd >= tm.tasks[cur].fd_table.len() {
        return ReadOutcome::Failed;
    }
    match tm.tasks[cur].fd_table[fd] {
        Some(file) => {
            if !file.readable() {
                return ReadOutcome::Failed;
            }
            match file {
                FileHandle::Inode(f) => {
                    let mut f = f;
                    proof {
                        assert(current_view(*old(tm)).fd_table[fd as int] matches Some(FileHandle::Inode(g)) && g == f);
                    }
                    let data = f.read(fs, len);
                    tm.tasks[cur].fd_table.set(fd, Some(FileHandle::Inode(f)));
                    proof {
                        let t = current_view(*old(tm));
                        assert(tm.tasks@[cur as int].fd_table@ =~= t.fd_table.update(
                            fd as int,
                            Some(FileHandle::Inode(f)),
                        ));
                    }
                    ReadOutcome::Read(data)
                },
                _ => ReadOutcome::Console,
            }
        },
        None => ReadOutcome::Failed,
    }
}

/// Opening `path` with flag bits `flags` does not overrun the file system:
/// a file it creates has a valid name, and there is room for it.
pub open spec fn open_fits(fs: FsView, path: Seq<char>, flags: u32) -> bool {
    crate::fs::wants_create(flags) && lookup(fs.entries, path) is None ==> {
        &&& crate::efs::valid_name(path)
        &&& fs.dir_has_room()
        &&& fs.dir_blocks_available()
        &&& fs.inode_available()
    }
}

/// Opening a file only adds to the file system.
pub proof fn lemma_open_fs_grows(fs: FsView, name: Seq<char>, bits: u32)
    requires
        fs.wf(),
    ensures
        open_fs_spec(fs, name, bits).files.len() >= fs.files.len(),
        open_fs_spec(fs, name, bits).inode_area_start_block == fs.inode_area_start_block,
{
    lemma_first_index(fs.entries, name);
}

/// The effect of `sys_open`: the file system changes as `open_file` changes it;
/// when a file is opened it goes into the lowest free descriptor (a new one at
/// the end when none is free), whose number is returned; otherwise the result
/// is -1 and the task is unchanged.
pub open spec fn sys_open_spec(
    old_tm: TaskManager,
    new_tm: TaskManager,
    old_fs: FsView,
    new_fs: FsView,
    path: Seq<char>,
    flags: u32,
    r: isize,
) -> bool {
    let t = current_view(old_tm);
    &&& new_fs == open_fs_spec(old_fs, path, flags)
    &&& match open_result_spec(old_fs, path, flags) {
        Some(f) => {
            let fd = alloc_fd_spec(t.fd_table);
            let table = if first_free_fd(t.fd_table) >= 0 { t.fd_table } else { t.fd_table.push(None) };
            &&& r == fd as isize
            &&& current_became(old_tm, new_tm, TaskView {
                fd_table: table.update(fd, Some(FileHandle::Inode(f))),
                ..t
            })
        },
        None => r == -1 && new_tm == old_tm,
    }
}

/// Opens `path` with flag bits `flags` in the current task; returns the new
/// descriptor (the lowest free one), or -1 when the file is missing and not created.
pub fn sys_open(tm: &mut TaskManager, fs: &mut EasyFileSystem, path: &str, flags: u32) -> (r: isize)
    requires
        kernel_wf(*old(tm), old(fs)@),
        known_open_flags(flags),
        open_fits(old(fs)@, path@, flags),
    ensures
        kernel_wf(*final(tm), final(fs)@),
        sys_open_spec(*old(tm), *final(tm), old(fs)@, final(fs)@, path@, flags, r),
{
    let flags = OpenFlags::from_bits(flags).unwrap();
    match open_file(fs, path, flags) {
        Some(inode) => {
            let cur = tm.current_task;
            proof {
                lemma_open_fs_grows(old(fs)@, path@, flags.bits);
                lemma_fds_valid_grows(current_view(*tm).fd_table, old(fs)@, fs@);
            }
            let fd = tm.tasks[cur].alloc_fd();
            tm.tasks[cur].fd_table.set(fd, Some(FileHandle::Inode(inode)));
            proof {
                let t = current_view(*old(tm));
                let table = if first_free_fd(t.fd_table) >= 0 { t.fd_table } else { t.fd_table.push(None) };
                assert(tm.tasks@[cur as int].fd_table@ =~= table.update(fd as int, Some(FileHandle::Inode(inode))));
                let nt = tm.tasks@[cur as int].fd_table@;
                assert forall|i: int| 0 <= i < nt.len() implies (#[trigger] nt[i] matches Some(FileHandle::Inode(g)) ==> fs@.is_file(g.inode)) by {
                    if i != fd {
                        assert(nt[i] == table[i]);
                    }
                }
                lemma_kernel_wf_step(*old(tm), *tm, old(fs)@, fs@);
            }
            fd as isize
        },
        None => {
            proof {
                lemma_open_fs_grows(old(fs)@, path@, flags.bits);
                lemma_kernel_wf_step(*old(tm), *tm, old(fs)@, fs@);
            }
            -1
        },
    }
}

/// The effect of `sys_close`: an open descriptor becomes free and the result
/// is 0; otherwise the result is -1 and nothing changes.
pub open spec fn sys_close_spec(old_tm: TaskManager, new_tm: TaskManager, fd: usize, r: isize) -> bool {
    let t = current_view(old_tm);
    if fd_open(t.fd_table, fd) {
        r == 0 && current_became(old_tm, new_tm, TaskView { fd_table: t.fd_table.update(fd as int, None), ..t })
    } else {
        r == -1 && new_tm == old_tm
    }
}

/// Closes descriptor `fd` of the current task; returns 0, or -1 when it holds no file.
pub fn sys_close(tm: &mut TaskManager, fd: usize) -> (r: isize)
    requires
        old(tm).wf(),
        old(tm).num_app > 0,
    ensures
        final(tm).wf(),
        sys_close_spec(*old(tm), *final(tm), fd, r),
{
    let cur = tm.current_task;
    if fd >= tm.tasks[cur].fd_table.len() {
        return -1;
    }
    if tm.tasks[cur].fd_table[fd].is_none() {
        return -1;
    }
    tm.tasks[cur].fd_table.set(fd, None);
    proof {
        let t = current_view(*old(tm));
        assert(tm.tasks@[cur as int].fd_table@ =~= t.fd_table.update(fd as int, None));
    }
    0
}

/// The number of root-directory entries that name the inode of opened file `f`,
/// as `sys_fstat` reports it.
pub open spec fn nlink_of(fs: FsView, f: OSInode) -> int {
    count_at_pos(fs.entries, fs.inode_area_start_block, f.inode.block_id as int, f.inode.block_offset as int) as int
}

/// The kind of inode `inode_id`: inode 0 is the root directory, every other
/// inode a regular file.
pub open spec fn mode_of_inode(inode_id: int) -> StatMode {
    if inode_id == 0 {
        StatMode::Dir
    } else {
        StatMode::File
    }
}

/// What `sys_fstat` reports: for an open descriptor, device 0, the inode's id,
/// its kind, its number of names and zero padding; otherwise `None` (-1).
pub open spec fn sys_fstat_spec(tm: TaskManager, fs: FsView, fd: usize, r: Option<Stat>) -> bool {
    let t = current_view(tm);
    if fd_open(t.fd_table, fd) {
        r matches Some(st) && t.fd_table[fd as int] matches Some(FileHandle::Inode(f)) && {
            &&& st.dev == 0
            &&& st.ino == fs.file_id(f.inode)
            &&& st.mode == mode_of_inode(fs.file_id(f.inode))
            &&& st.nlink == nlink_of(fs, f)
            &&& forall|i: int| 0 <= i < 7 ==> st.pad[i] == 0
        }
    } else {
        r is None
    }
}

/// The status of the file behind descriptor `fd` of the current task, or
/// `None` (the call fails with -1) when the descriptor holds no file.
pub fn sys_fstat(tm: &TaskManager, fs: &EasyFileSystem, fd: usize) -> (r: Option<Stat>)
    requires
        kernel_wf(*tm, fs@),
        fd_open(current_view(*tm).fd_table, fd) ==> current_view(*tm).fd_table[fd as int].unwrap() is Inode,
    ensures
        sys_fstat_spec(*tm, fs@, fd, r),
{
    let cur = tm.current_task;
    if fd >= tm.tasks[cur].fd_table.len() {
        return None;
    }
    match tm.tasks[cur].fd_table[fd] {
        Some(FileHandle::Inode(os_node)) => {
            proof {
                assert(current_view(*tm).fd_table[fd as int] matches Some(FileHandle::Inode(g)) && g == os_node);
            }
            let ino = os_node.get_inode_id(fs);
            let (block_id, block_offset) = os_node.get_inode_pos();
            let root = fs.root_inode();
            let nlink = root.get_link_num(fs, block_id, block_offset);
            let mode = if ino == 0 { StatMode::Dir } else { StatMode::File };
            Some(Stat { dev: 0, ino, mode, nlink, pad: [0u64; 7] })
        },
        Some(_) => None,
        None => None,
    }
}

/// The effect of `sys_linkat`: when the names differ and `old_name` names a
/// file, an entry `new_name` for that file is appended and the result is 0;
/// otherwise the result is -1 and nothing changes.
pub open spec fn sys_linkat_spec(old_fs: FsView, new_fs: FsView, old_name: Seq<char>, new_name: Seq<char>, r: isize) -> bool {
    if old_name != new_name && lookup(old_fs.entries, old_name) is Some {
        &&& r == 0
        &&& new_fs == FsView {
            entries: old_fs.entries.push((new_name, lookup(old_fs.entries, old_name).unwrap())),
            free_data_blocks: (old_fs.free_data_blocks - old_fs.dir_grow_blocks()) as u32,
            ..old_fs
        }
    } else {
        r == -1 && new_fs == old_fs
    }
}

/// Whether `sys_linkat` can add the name: it fits an entry and the directory has room.
pub open spec fn linkat_fits(fs: FsView, old_name: Seq<char>, new_name: Seq<char>) -> bool {
    old_name != new_name && lookup(fs.entries, old_name) is Some ==> {
        &&& crate::efs::valid_name(new_name)
        &&& fs.dir_has_room()
        &&& fs.dir_blocks_available()
    }
}

/// Gives the file called `old_name` the further name `new_name`; returns 0,
/// or -1 when the names are equal or no file is called `old_name`.
pub fn sys_linkat(fs: &mut EasyFileSystem, old_name: &str, new_name: &str) -> (r: isize)
    requires
        old(fs)@.wf(),
        linkat_fits(old(fs)@, old_name@, new_name@),
    ensures
        final(fs)@.wf(),
        sys_linkat_spec(old(fs)@, final(fs)@, old_name@, new_name@, r),
{
    let old_s = old_name.to_owned();
    let new_s = new_name.to_owned();
    if old_s != new_s {
        let root = fs.root_inode();
        if let Some(_) = root.link(fs, old_name, new_name) {
            return 0;
        }
    }
    -1
}

/// The file system after `sys_unlinkat` removes `name`: the first entry called
/// `name` goes (the last entry takes its place), and the file is emptied when
/// that entry was its only name.
pub open spec fn unlink_fs_spec(fs: FsView, name: Seq<char>) -> FsView {
    let i = first_index(fs.entries, name);
    let id = fs.entries[i].1 as int;
    let h = fs.handle_of(id);
    let last_name = count_at_pos(fs.entries, fs.inode_area_start_block, h.block_id as int, h.block_offset as int) == 1;
    FsView {
        entries: fs.entries.update(i, fs.entries.last()).drop_last(),
        files: if last_name {
            fs.files.update(id, Seq::<u8>::empty())
        } else {
            fs.files
        },
        free_data_blocks: if last_name {
            (fs.free_data_blocks + total_blocks(fs.files[id].len() as int)) as u32
        } else {
            fs.free_data_blocks
        },
        ..fs
    }
}

/// The effect of `sys_unlinkat`: when `name` names a file the file system
/// becomes `unlink_fs_spec` of it and the result is 0; otherwise -1 and nothing changes.
pub open spec fn sys_unlinkat_spec(old_fs: FsView, new_fs: FsView, name: Seq<char>, r: isize) -> bool {
    if lookup(old_fs.entries, name) is Some {
        r == 0 && new_fs == unlink_fs_spec(old_fs, name)
    } else {
        r == -1 && new_fs == old_fs
    }
}

/// Removes the name `name`; returns 0, or -1 when no file is called `name`.
/// A file whose only name this was is emptied.
pub fn sys_unlinkat(fs: &mut EasyFileSystem, name: &str) -> (r: isize)
    requires
        old(fs)@.wf(),
    ensures
        final(fs)@.wf(),
        sys_unlinkat_spec(old(fs)@, final(fs)@, name@, r),
{
    let root = fs.root_inode();
    if let Some(inode) = root.find(fs, name) {
        proof {
            lemma_first_index(fs@.entries, name@);
            let id = lookup(fs@.entries, name@).unwrap() as int;
            assert(fs@.names_inode(inode, id));
            assert(fs@.file_id(inode) == id) by {
                let w = fs@.file_id(inode);
                crate::efs::lemma_inode_pos_injective(fs@.inode_area_start_block, id, w);
            }
        }
        if root.get_link_num(fs, inode.block_id, inode.block_offset) == 1 {
            inode.clear(fs);
        }
        return root.unlink(fs, name);
    }
    -1
}

/// Gives up the processor: the current task becomes ready and the next ready
/// task runs. Returns 0 and the indices of the task left and the task entered.
pub fn sys_yield(tm: &mut TaskManager) -> (r: (isize, (usize, usize)))
    requires
        old(tm).wf(),
        old(tm).num_app > 0,
    ensures
        final(tm).wf(),
        r.0 == 0,
        crate::task::suspend_spec(*old(tm), *final(tm), r.1),
{
    let pair = suspend_current_and_run_next(tm);
    (0, pair)
}

/// A time as seconds and microseconds.
#[derive(Clone, Copy, Debug, PartialEq, Eq, Structural)]
pub struct TimeVal {
    /// Whole seconds.
    pub sec: usize,
    /// Microseconds past the whole seconds.
    pub usec: usize,
}

/// The time `us` microseconds, as `get_time` reports it.
pub fn sys_get_time(us: usize) -> (tv: TimeVal)
    ensures
        tv.sec == us / 1_000_000,
        tv.usec == us % 1_000_000,
        tv.sec * 1_000_000 + tv.usec == us,
        tv.usec < 1_000_000,
{
    TimeVal { sec: us / 1_000_000, usec: us % 1_000_000 }
}

/// `len` rounded up to whole pages.
pub open spec fn round_up_page(len: int) -> int {
    if len % (PAGE_SIZE as int) == 0 {
        len
    } else {
        (len / (PAGE_SIZE as int) + 1) * (PAGE_SIZE as int)
    }
}

/// The rights of a mapping asked for with protection bits `prot`: user access,
/// and read, write and execute for bits 0, 1 and 2.
pub open spec fn perm_of(prot: usize) -> MapPermission {
    MapPermission {
        bits: (MapPermission::U | (if prot & 1 != 0 { MapPermission::R } else { 0u8 }) | (if prot & 2
            != 0 {
            MapPermission::W
        } else {
            0u8
        }) | (if prot & 4 != 0 { MapPermission::X } else { 0u8 })),
    }
}

/// `mmap` rejects these arguments outright.
pub open spec fn mmap_rejects(start: usize, prot: usize) -> bool {
    start % PAGE_SIZE != 0 || prot & !0x7usize != 0 || prot & 0x7 == 0
}

/// The pages `[l, h)` that `mmap`/`munmap` act on for `start` and `len`.
pub open spec fn pages_of(start: usize, len: usize) -> (int, int) {
    (
        floor_spec(start as int % va_limit()),
        ceil_spec((start + round_up_page(len as int)) % va_limit()),
    )
}

/// `start` and `len` make a page range that `mmap`/`munmap` can act on:
/// the end does not overflow and does not fall before the start.
pub open spec fn range_fits(start: usize, len: usize) -> bool {
    &&& start + round_up_page(len as int) <= usize::MAX
    &&& pages_of(start, len).0 <= pages_of(start, len).1
}

/// `mmap`'s range can be acted on whenever the arguments pass the checks.
pub open spec fn mmap_fits(start: usize, len: usize, prot: usize) -> bool {
    !mmap_rejects(start, prot) && len != 0 ==> range_fits(start, len)
}

/// The effect of `sys_mmap`: -1 and nothing changed for a misaligned `start` or
/// bad `prot`; 0 and nothing changed for an empty length; -1 and nothing
/// changed when a page of the range is mapped; otherwise 0, with the range
/// added as a new area of the current task.
pub open spec fn sys_mmap_spec(old_tm: TaskManager, new_tm: TaskManager, start: usize, len: usize, prot: usize, r: isize) -> bool {
    let t = current_view(old_tm);
    let (l, h) = pages_of(start, len);
    if mmap_rejects(start, prot) {
        r == -1 && new_tm == old_tm
    } else if len == 0 {
        r == 0 && new_tm == old_tm
    } else if range_overlaps(t.areas, l, h) {
        r == -1 && current_became(old_tm, new_tm, t)
    } else {
        r == 0 && current_became(old_tm, new_tm, TaskView { areas: t.areas.push(area_of(l, h, perm_of(prot))), ..t })
    }
}

/// Maps `len` bytes (rounded up to pages) from `start` into the current task
/// with rights from `prot`. Returns 0 (also when `len` is 0), or -1 for a
/// misaligned `start`, bad `prot`, or pages mapped already.
pub fn sys_mmap(tm: &mut TaskManager, start: usize, len: usize, prot: usize) -> (r: isize)
    requires
        old(tm).wf(),
        old(tm).num_app > 0,
        mmap_fits(start, len, prot),
    ensures
        final(tm).wf(),
        sys_mmap_spec(*old(tm), *final(tm), start, len, prot, r),
{
    if start % PAGE_SIZE != 0 {
        return -1;
    }
    if prot & !0x7usize != 0 {
        return -1;
    }
    if prot & 0x7 == 0 {
        return -1;
    }
    if len == 0 {
        return 0;
    }
    let length = if len % PAGE_SIZE == 0 { len } else { (len / PAGE_SIZE + 1) * PAGE_SIZE };
    let bits: u8 = MapPermission::U | (if prot & 1 != 0 { MapPermission::R } else { 0u8 }) | (if prot & 2
        != 0 {
        MapPermission::W
    } else {
        0u8
    }) | (if prot & 4 != 0 { MapPermission::X } else { 0u8 });
    let permission = MapPermission { bits };
    assert(length == round_up_page(len as int));
    assert(permission == perm_of(prot));
    let start_va = VirtAddr::from(start);
    let end_va = VirtAddr::from(start + length);
    assert(pages_of(start, len) == (floor_spec(start_va.0 as int), ceil_spec(end_va.0 as int)));
    task_mmap(tm, start_va, end_va, permission)
}

/// The end of the range `munmap` acts on does not overflow.
pub open spec fn munmap_fits(start: usize, len: usize) -> bool {
    start % PAGE_SIZE == 0 && len != 0 ==> start + round_up_page(len as int) <= usize::MAX
}

/// The effect of `sys_munmap`: -1 and nothing changed for a misaligned `start`;
/// 0 and nothing changed for an empty length; 0 with the first area starting
/// at the range's first page removed when some area covers exactly the range;
/// otherwise -1 and nothing changed.
pub open spec fn sys_munmap_spec(old_tm: TaskManager, new_tm: TaskManager, start: usize, len: usize, r: isize) -> bool {
    let t = current_view(old_tm);
    let (l, h) = pages_of(start, len);
    if start % PAGE_SIZE != 0 {
        r == -1 && new_tm == old_tm
    } else if len == 0 {
        r == 0 && new_tm == old_tm
    } else if has_area_exactly(t.areas, l, h) {
        r == 0 && current_became(old_tm, new_tm, TaskView { areas: t.areas.remove(first_area_starting_at(t.areas, l)), ..t })
    } else {
        r == -1 && current_became(old_tm, new_tm, t)
    }
}

/// Unmaps the area of the current task that covers exactly `len` bytes
/// (rounded up to pages) from `start`. Returns 0 (also when `len` is 0), or
/// -1 for a misaligned `start` or when no area covers exactly those pages.
pub fn sys_munmap(tm: &mut TaskManager, start: usize, len: usize) -> (r: isize)
    requires
        old(tm).wf(),
        old(tm).num_app > 0,
        munmap_fits(start, len),
    ensures
        final(tm).wf(),
        sys_munmap_spec(*old(tm), *final(tm), start, len, r),
{
    if start % PAGE_SIZE != 0 {
        return -1;
    }
    if len == 0 {
        return 0;
    }
    let length = if len % PAGE_SIZE == 0 { len } else { (len / PAGE_SIZE + 1) * PAGE_SIZE };
    let start_va = VirtAddr::from(start);
    let end_va = VirtAddr::from(start + length);
    task_munmap(tm, start_va, end_va)
}

/// `fstat` reports as the link count of an opened file the number of
/// root-directory entries that name its inode.
pub proof fn law_fstat_nlink_counts_names(fs: FsView, f: OSInode)
    requires
        fs.wf(),
        fs.is_file(f.inode),
    ensures
        nlink_of(fs, f) == crate::efs::count_links(fs.entries, fs.file_id(f.inode)),
{
    let id = fs.file_id(f.inode);
    crate::vfs::law_link_num_counts_names(fs, id);
}

/// `unlinkat` empties a file exactly when the name it removes was the file's
/// only name, and then gives the file's blocks back to the data bitmap;
/// otherwise the file keeps its bytes and blocks for its other names.
pub proof fn law_unlinkat_clears_only_last_name(fs: FsView, name: Seq<char>)
    requires
        fs.wf(),
        lookup(fs.entries, name) is Some,
    ensures
        ({
            let id = lookup(fs.entries, name).unwrap() as int;
            let after = unlink_fs_spec(fs, name);
            &&& crate::efs::count_links(fs.entries, id) == 1 ==> {
                &&& after.files == fs.files.update(id, Seq::<u8>::empty())
                &&& after.free_data_blocks == fs.free_data_blocks + total_blocks(fs.files[id].len() as int)
            }
            &&& crate::efs::count_links(fs.entries, id) != 1 ==> {
                &&& after.files == fs.files
                &&& after.free_data_blocks == fs.free_data_blocks
            }
            &&& crate::efs::count_links(after.entries, id) + 1 == crate::efs::count_links(fs.entries, id)
        }),
{
    lemma_first_index(fs.entries, name);
    let id = lookup(fs.entries, name).unwrap() as int;
    crate::vfs::law_link_num_counts_names(fs, id);
    crate::vfs::law_unlink_removes_one_name(fs, name, id);
    crate::efs::lemma_file_blocks_update(fs.files, id, Seq::<u8>::empty());
    crate::efs::lemma_file_blocks_nonneg(fs.files.update(id, Seq::<u8>::empty()));
    crate::efs::lemma_total_blocks_monotone(0, fs.entries.len() * crate::config::DIRENT_SZ);
}


/// `fstat` succeeds exactly on an open descriptor of the current task. It then
/// reports device 0, the id of the regular-file inode that the descriptor
/// holds (never the root directory's inode 0) and the regular-file mode.
pub proof fn law_fstat_reports_regular_file(tm: TaskManager, fs: FsView, fd: usize, r: Option<Stat>)
    requires
        kernel_wf(tm, fs),
        sys_fstat_spec(tm, fs, fd, r),
    ensures
        r is Some <==> (fd < current_view(tm).fd_table.len() && current_view(tm).fd_table[fd as int] is Some),
        r matches Some(st) ==> {
            &&& current_view(tm).fd_table[fd as int] matches Some(FileHandle::Inode(f))
            &&& fs.names_inode(f.inode, st.ino as int)
            &&& st.ino >= 1
            &&& st.dev == 0
            &&& st.mode == StatMode::File
        },
{
    if let Some(st) = r {
        assert(fds_valid(tm.tasks@[tm.current_task as int].fd_table@, fs));
        let t = current_view(tm);
        if let Some(FileHandle::Inode(f)) = t.fd_table[fd as int] {
            assert(fs.is_file(f.inode));
            let id = fs.file_id(f.inode);
            assert(1 <= id && fs.names_inode(f.inode, id));
        }
    }
}

/// `mmap` refuses, with -1 and no task changed, a start address that is not
/// page-aligned, rights with a bit above the read, write and execute bits,
/// and rights with none of those three bits.
pub proof fn law_mmap_refuses_bad_arguments(
    old_tm: TaskManager,
    new_tm: TaskManager,
    start: usize,
    len: usize,
    prot: usize,
    r: isize,
)
    requires
        sys_mmap_spec(old_tm, new_tm, start, len, prot, r),
        start % 4096 != 0 || prot & !0x7usize != 0 || prot & 0x7usize == 0,
    ensures
        r == -1,
        new_tm == old_tm,
{
}

/// `munmap` refuses, with -1 and no task changed, a start address that is not page-aligned.
pub proof fn law_munmap_refuses_unaligned_start(
    old_tm: TaskManager,
    new_tm: TaskManager,
    start: usize,
    len: usize,
    r: isize,
)
    requires
        sys_munmap_spec(old_tm, new_tm, start, len, r),
        start % 4096 != 0,
    ensures
        r == -1,
        new_tm == old_tm,
{
}

} // verus!
