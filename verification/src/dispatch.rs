//! Serving a decoded system call: which handler runs, what it returns, and
//! the return value stored in register `a0`.
use vstd::prelude::*;
use crate::config::{MAX_FILE_SIZE, PAGE_SIZE};
use crate::efs::{is_valid_name, lookup, EasyFileSystem};
use crate::fs::{known_open_flags, FileHandle, OpenFlags, Stat};
use crate::mm::VirtAddr;
use crate::syscall::{
    fd_open, fds_valid, kernel_wf, lemma_kernel_wf_step, linkat_fits, mmap_fits, munmap_fits, open_fits, pages_of, round_up_page,
    sys_close, sys_close_spec, sys_fstat, sys_fstat_spec, sys_get_time, sys_linkat,
    sys_linkat_spec, sys_mmap, sys_mmap_spec, sys_munmap, sys_munmap_spec, sys_open,
    sys_open_spec, sys_read, sys_read_spec, sys_unlinkat, sys_unlinkat_spec, sys_write,
    sys_write_spec, sys_yield, write_fits, decode_syscall, ReadOutcome, SyscallRequest, TimeVal,
    WriteOutcome, SYSCALL_CLOSE, SYSCALL_EXIT, SYSCALL_FSTAT, SYSCALL_MMAP, SYSCALL_MUNMAP,
    SYSCALL_READ, SYSCALL_YIELD,
};
use crate::task::{
    current_view, exit_current_and_run_next, exit_spec, lemma_switch_keeps_tables, suspend_spec,
    TaskManager, TaskStatus,
};
use crate::trap::TrapContext;

verus! {

/// A decoded system call whose arguments in user memory have been read:
/// the names, the bytes to write, and for `get_time` the clock and whether
/// the result buffer is mapped.
#[derive(Debug)]
pub enum KernelCall {
    /// `unlinkat(name)`.
    UnlinkAt { name: String },
    /// `linkat(old_name, new_name)`.
    LinkAt { old_name: String, new_name: String },
    /// `open(path, flags)`.
    Open { path: String, flags: u32 },
    /// `close(fd)`.
    Close { fd: usize },
    /// `read(fd, buf, len)`: up to `len` bytes.
    Read { fd: usize, len: usize },
    /// `fstat(fd, st)`.
    Fstat { fd: usize },
    /// `write(fd, buf, len)` with the bytes of the buffer.
    Write { fd: usize, data: Vec<u8> },
    /// `exit(exit_code)`.
    Exit { exit_code: i32 },
    /// `yield()`.
    Yield,
    /// `get_time(ts, tz)` at `us` microseconds; `buffer_ok` tells whether `ts` is mapped.
    GetTime { us: usize, buffer_ok: bool },
    /// `mmap(start, len, prot)`.
    Mmap { start: usize, len: usize, prot: usize },
    /// `munmap(start, len)`.
    Munmap { start: usize, len: usize },
}

/// The call that a decoded request names when its arguments all lie in
/// registers; `None` for a request that reads user memory or the clock, and
/// for an id the kernel does not serve.
pub open spec fn register_call(req: SyscallRequest) -> Option<KernelCall> {
    match req {
        SyscallRequest::Close { fd } => Some(KernelCall::Close { fd }),
        SyscallRequest::Read { fd, buf: _, len } => Some(KernelCall::Read { fd, len }),
        SyscallRequest::Fstat { fd, st: _ } => Some(KernelCall::Fstat { fd }),
        SyscallRequest::Exit { exit_code } => Some(KernelCall::Exit { exit_code }),
        SyscallRequest::Yield => Some(KernelCall::Yield),
        SyscallRequest::Mmap { start, len, prot } => Some(KernelCall::Mmap { start, len, prot }),
        SyscallRequest::Munmap { start, len } => Some(KernelCall::Munmap { start, len }),
        _ => None,
    }
}

/// The call that `req` names, when its arguments all lie in registers.
pub fn register_call_of(req: SyscallRequest) -> (c: Option<KernelCall>)
    ensures
        c == register_call(req),
{
    match req {
        SyscallRequest::Close { fd } => Some(KernelCall::Close { fd }),
        SyscallRequest::Read { fd, buf: _, len } => Some(KernelCall::Read { fd, len }),
        SyscallRequest::Fstat { fd, st: _ } => Some(KernelCall::Fstat { fd }),
        SyscallRequest::Exit { exit_code } => Some(KernelCall::Exit { exit_code }),
        SyscallRequest::Yield => Some(KernelCall::Yield),
        SyscallRequest::Mmap { start, len, prot } => Some(KernelCall::Mmap { start, len, prot }),
        SyscallRequest::Munmap { start, len } => Some(KernelCall::Munmap { start, len }),
        _ => None,
    }
}

/// What serving a system call produced: the handler's own result.
#[derive(Debug)]
pub enum CallOutcome {
    /// Result of `sys_unlinkat`.
    UnlinkAt(isize),
    /// Result of `sys_linkat`.
    LinkAt(isize),
    /// Result of `sys_open`.
    Open(isize),
    /// Result of `sys_close`.
    Close(isize),
    /// Result of `sys_read`: bytes to copy to the user buffer, or one console byte to read.
    Read(ReadOutcome),
    /// Result of `sys_fstat`: the status to copy to the user buffer.
    Fstat(Option<Stat>),
    /// Result of `sys_write`: bytes that go to the console, if any.
    Write(WriteOutcome),
    /// The task ended; the switch to perform, or `None` when every task has ended.
    Exit(Option<(usize, usize)>),
    /// The task gave up the processor; the switch to perform.
    Yield((usize, usize)),
    /// The time to copy to the user buffer, or `None` when the buffer is not mapped.
    GetTime(Option<TimeVal>),
    /// Result of `sys_mmap`.
    Mmap(isize),
    /// Result of `sys_munmap`.
    Munmap(isize),
}

/// Reading from descriptor `fd` of `fd_table` reads the console one byte at a time.
pub open spec fn read_fits(fd_table: Seq<Option<FileHandle>>, fd: usize, len: usize) -> bool {
    fd_open(fd_table, fd) && fd_table[fd as int].unwrap() is Stdin ==> len == 1
}

/// `fstat` on descriptor `fd` of `fd_table` finds an easy-fs file when the descriptor is open.
pub open spec fn fstat_fits(fd_table: Seq<Option<FileHandle>>, fd: usize) -> bool {
    fd_open(fd_table, fd) ==> fd_table[fd as int].unwrap() is Inode
}

/// The call can be served without a panic.
pub open spec fn call_fits(tm: TaskManager, fs: crate::efs::FsView, call: KernelCall) -> bool {
    let table = current_view(tm).fd_table;
    match call {
        KernelCall::LinkAt { old_name, new_name } => linkat_fits(fs, old_name@, new_name@),
        KernelCall::Open { path, flags } => known_open_flags(flags) && open_fits(fs, path@, flags),
        KernelCall::Read { fd, len } => read_fits(table, fd, len),
        KernelCall::Fstat { fd } => fstat_fits(table, fd),
        KernelCall::Write { fd, data } => write_fits(fs, table, fd, data@.len() as int),
        KernelCall::Mmap { start, len, prot } => mmap_fits(start, len, prot),
        KernelCall::Munmap { start, len } => munmap_fits(start, len),
        _ => true,
    }
}

/// The value the call returns to user mode in `a0`, or `None` for `exit`,
/// which never returns.
pub open spec fn call_ret(call: KernelCall, o: CallOutcome) -> Option<isize> {
    match o {
        CallOutcome::UnlinkAt(r) => Some(r),
        CallOutcome::LinkAt(r) => Some(r),
        CallOutcome::Open(r) => Some(r),
        CallOutcome::Close(r) => Some(r),
        CallOutcome::Read(ReadOutcome::Failed) => Some(-1isize),
        CallOutcome::Read(ReadOutcome::Console) => Some(1isize),
        CallOutcome::Read(ReadOutcome::Read(d)) => Some(d@.len() as isize),
        CallOutcome::Fstat(r) => Some(if r is Some { 0isize } else { -1isize }),
        CallOutcome::Write(WriteOutcome::Failed) => Some(-1isize),
        CallOutcome::Write(WriteOutcome::Console) => Some(
            match call {
                KernelCall::Write { fd: _, data } => data@.len() as isize,
                _ => 0isize,
            },
        ),
        CallOutcome::Write(WriteOutcome::Written(n)) => Some(n as isize),
        CallOutcome::Exit(_) => None,
        CallOutcome::Yield(_) => Some(0isize),
        CallOutcome::GetTime(r) => Some(if r is Some { 0isize } else { -1isize }),
        CallOutcome::Mmap(r) => Some(r),
        CallOutcome::Munmap(r) => Some(r),
    }
}

/// The effect of serving `call`: the handler the call names runs, with the
/// effect its own specification states, and nothing else changes.
pub open spec fn serve_spec(
    call: KernelCall,
    o: CallOutcome,
    old_tm: TaskManager,
    new_tm: TaskManager,
    old_fs: crate::efs::FsView,
    new_fs: crate::efs::FsView,
) -> bool {
    match call {
        KernelCall::UnlinkAt { name } => o matches CallOutcome::UnlinkAt(r) && sys_unlinkat_spec(old_fs, new_fs, name@, r)
            && new_tm == old_tm,
        KernelCall::LinkAt { old_name, new_name } => o matches CallOutcome::LinkAt(r) && sys_linkat_spec(
            old_fs,
            new_fs,
            old_name@,
            new_name@,
            r,
        ) && new_tm == old_tm,
        KernelCall::Open { path, flags } => o matches CallOutcome::Open(r) && sys_open_spec(
            old_tm,
            new_tm,
            old_fs,
            new_fs,
            path@,
            flags,
            r,
        ),
        KernelCall::Close { fd } => o matches CallOutcome::Close(r) && sys_close_spec(old_tm, new_tm, fd, r)
            && new_fs == old_fs,
        KernelCall::Read { fd, len } => o matches CallOutcome::Read(r) && sys_read_spec(
            old_tm,
            new_tm,
            old_fs,
            fd,
            len,
            r,
        ) && new_fs == old_fs,
        KernelCall::Fstat { fd } => o matches CallOutcome::Fstat(r) && sys_fstat_spec(old_tm, old_fs, fd, r)
            && new_tm == old_tm && new_fs == old_fs,
        KernelCall::Write { fd, data } => o matches CallOutcome::Write(r) && sys_write_spec(
            old_tm,
            new_tm,
            old_fs,
            new_fs,
            fd,
            data@,
            r,
        ),
        KernelCall::Exit { exit_code: _ } => o matches CallOutcome::Exit(r) && exit_spec(old_tm, new_tm, r)
            && new_fs == old_fs,
        KernelCall::Yield => o matches CallOutcome::Yield(p) && suspend_spec(old_tm, new_tm, p) && new_fs
            == old_fs,
        KernelCall::GetTime { us, buffer_ok } => o matches CallOutcome::GetTime(r) && (if buffer_ok {
            r == Some(TimeVal { sec: us / 1_000_000, usec: us % 1_000_000 })
        } else {
            r is None
        }) && new_tm == old_tm && new_fs == old_fs,
        KernelCall::Mmap { start, len, prot } => o matches CallOutcome::Mmap(r) && sys_mmap_spec(
            old_tm,
            new_tm,
            start,
            len,
            prot,
            r,
        ) && new_fs == old_fs,
        KernelCall::Munmap { start, len } => o matches CallOutcome::Munmap(r) && sys_munmap_spec(
            old_tm,
            new_tm,
            start,
            len,
            r,
        ) && new_fs == old_fs,
    }
}

/// Whether some entry of the root directory is called `name`.
pub open spec fn has_entry(fs: crate::efs::FsView, name: Seq<char>) -> bool {
    exists|i: int| 0 <= i < fs.entries.len() && fs.entries[i].0 == name
}

/// Serving `unlinkat(name)` returns in `a0` 0 when some entry is called
/// `name`, and -1, with nothing changed, when none is.
pub proof fn law_serve_unlinkat_result(
    name: String,
    o: CallOutcome,
    old_tm: TaskManager,
    new_tm: TaskManager,
    old_fs: crate::efs::FsView,
    new_fs: crate::efs::FsView,
)
    requires
        serve_spec(KernelCall::UnlinkAt { name }, o, old_tm, new_tm, old_fs, new_fs),
    ensures
        call_ret(KernelCall::UnlinkAt { name }, o) == Some(if has_entry(old_fs, name@) { 0isize } else { -1isize }),
        !has_entry(old_fs, name@) ==> new_fs == old_fs && new_tm == old_tm,
{
    crate::efs::lemma_first_index(old_fs.entries, name@);
}

/// Serving `linkat(old_name, new_name)` returns in `a0` 0 when the names
/// differ and some entry is called `old_name`; otherwise -1, with nothing changed.
pub proof fn law_serve_linkat_result(
    old_name: String,
    new_name: String,
    o: CallOutcome,
    old_tm: TaskManager,
    new_tm: TaskManager,
    old_fs: crate::efs::FsView,
    new_fs: crate::efs::FsView,
)
    requires
        serve_spec(KernelCall::LinkAt { old_name, new_name }, o, old_tm, new_tm, old_fs, new_fs),
    ensures
        ({
            let ok = old_name@ != new_name@ && has_entry(old_fs, old_name@);
            &&& call_ret(KernelCall::LinkAt { old_name, new_name }, o) == Some(if ok { 0isize } else { -1isize })
            &&& !ok ==> new_fs == old_fs && new_tm == old_tm
        }),
{
    crate::efs::lemma_first_index(old_fs.entries, old_name@);
}

/// Serving `read(fd, len)` on a descriptor that is not open, that holds the
/// console output, or that holds a file opened without read rights returns -1
/// in `a0` and changes nothing.
pub proof fn law_serve_unreadable_read_fails(
    fd: usize,
    len: usize,
    o: CallOutcome,
    old_tm: TaskManager,
    new_tm: TaskManager,
    old_fs: crate::efs::FsView,
    new_fs: crate::efs::FsView,
)
    requires
        serve_spec(KernelCall::Read { fd, len }, o, old_tm, new_tm, old_fs, new_fs),
        ({
            let t = current_view(old_tm).fd_table;
            ||| fd >= t.len()
            ||| t[fd as int] is None
            ||| t[fd as int] matches Some(FileHandle::Stdout(_))
            ||| t[fd as int] matches Some(FileHandle::Inode(f)) && !f.readable
        }),
    ensures
        call_ret(KernelCall::Read { fd, len }, o) == Some(-1isize),
        new_tm == old_tm,
        new_fs == old_fs,
{
}

/// Serving `write(fd, data)` on a descriptor that is not open, that holds the
/// console input, or that holds a file opened without write rights returns -1
/// in `a0` and changes nothing.
pub proof fn law_serve_unwritable_write_fails(
    fd: usize,
    data: Vec<u8>,
    o: CallOutcome,
    old_tm: TaskManager,
    new_tm: TaskManager,
    old_fs: crate::efs::FsView,
    new_fs: crate::efs::FsView,
)
    requires
        serve_spec(KernelCall::Write { fd, data }, o, old_tm, new_tm, old_fs, new_fs),
        ({
            let t = current_view(old_tm).fd_table;
            ||| fd >= t.len()
            ||| t[fd as int] is None
            ||| t[fd as int] matches Some(FileHandle::Stdin(_))
            ||| t[fd as int] matches Some(FileHandle::Inode(f)) && !f.writable
        }),
    ensures
        call_ret(KernelCall::Write { fd, data }, o) == Some(-1isize),
        new_tm == old_tm,
        new_fs == old_fs,
{
}

/// Serving a call stores in `a0` what its handler returned: the result of
/// `open`, `close`, `unlinkat`, `linkat`, `mmap` and `munmap`; the number of
/// bytes read or written (one for a console read, all of them for a console
/// write); 0 for `fstat` and `get_time` that fill their buffer and -1 when they
/// cannot; 0 for `yield`; nothing for `exit`.
pub proof fn law_serve_returns_handler_result(
    call: KernelCall,
    o: CallOutcome,
    old_tm: TaskManager,
    new_tm: TaskManager,
    old_fs: crate::efs::FsView,
    new_fs: crate::efs::FsView,
)
    requires
        serve_spec(call, o, old_tm, new_tm, old_fs, new_fs),
    ensures
        o matches CallOutcome::Open(r) ==> call_ret(call, o) == Some(r),
        o matches CallOutcome::Close(r) ==> call_ret(call, o) == Some(r),
        o matches CallOutcome::UnlinkAt(r) ==> call_ret(call, o) == Some(r),
        o matches CallOutcome::LinkAt(r) ==> call_ret(call, o) == Some(r),
        o matches CallOutcome::Mmap(r) ==> call_ret(call, o) == Some(r),
        o matches CallOutcome::Munmap(r) ==> call_ret(call, o) == Some(r),
        o matches CallOutcome::Read(ReadOutcome::Read(d)) ==> call_ret(call, o) == Some(d@.len() as isize),
        o matches CallOutcome::Read(ReadOutcome::Console) ==> call_ret(call, o) == Some(1isize),
        o matches CallOutcome::Write(WriteOutcome::Written(n)) ==> call_ret(call, o) == Some(n as isize),
        o matches CallOutcome::Write(WriteOutcome::Console) ==> (call matches KernelCall::Write { fd: _, data }
            && call_ret(call, o) == Some(data@.len() as isize)),
        o matches CallOutcome::Write(WriteOutcome::Failed) ==> call_ret(call, o) == Some(-1isize),
        o matches CallOutcome::Fstat(Some(_)) ==> call_ret(call, o) == Some(0isize),
        o matches CallOutcome::Fstat(None) ==> call_ret(call, o) == Some(-1isize),
        o matches CallOutcome::GetTime(Some(_)) ==> call_ret(call, o) == Some(0isize),
        o matches CallOutcome::GetTime(None) ==> call_ret(call, o) == Some(-1isize),
        o matches CallOutcome::Yield(_) ==> call_ret(call, o) == Some(0isize),
        o is Exit <==> call_ret(call, o) is None,
{
}

/// A system call whose arguments all lie in registers, decoded from its id and
/// registers and then served, runs the handler its id names on those registers
/// and returns that handler's result in `a0` (`exit` returns nothing).
pub proof fn law_register_call_runs_named_handler(
    id: usize,
    args: [usize; 3],
    o: CallOutcome,
    old_tm: TaskManager,
    new_tm: TaskManager,
    old_fs: crate::efs::FsView,
    new_fs: crate::efs::FsView,
)
    requires
        register_call(decode_syscall(id, args)) is Some,
        serve_spec(register_call(decode_syscall(id, args)).unwrap(), o, old_tm, new_tm, old_fs, new_fs),
    ensures
        ({
            let call = register_call(decode_syscall(id, args)).unwrap();
            &&& id == SYSCALL_CLOSE ==> (o matches CallOutcome::Close(r) && sys_close_spec(old_tm, new_tm, args[0], r)
                && call_ret(call, o) == Some(r) && new_fs == old_fs)
            &&& id == SYSCALL_READ ==> (o matches CallOutcome::Read(r) && sys_read_spec(old_tm, new_tm, old_fs, args[0], args[2], r)
                && new_fs == old_fs)
            &&& id == SYSCALL_FSTAT ==> (o matches CallOutcome::Fstat(r) && sys_fstat_spec(old_tm, old_fs, args[0], r)
                && call_ret(call, o) == Some(if r is Some { 0isize } else { -1isize }) && new_tm == old_tm
                && new_fs == old_fs)
            &&& id == SYSCALL_EXIT ==> (o matches CallOutcome::Exit(w) && exit_spec(old_tm, new_tm, w)
                && call_ret(call, o) is None && new_fs == old_fs)
            &&& id == SYSCALL_YIELD ==> (o matches CallOutcome::Yield(p) && suspend_spec(old_tm, new_tm, p)
                && call_ret(call, o) == Some(0isize) && new_fs == old_fs)
            &&& id == SYSCALL_MMAP ==> (o matches CallOutcome::Mmap(r) && sys_mmap_spec(old_tm, new_tm, args[0], args[1], args[2], r)
                && call_ret(call, o) == Some(r) && new_fs == old_fs)
            &&& id == SYSCALL_MUNMAP ==> (o matches CallOutcome::Munmap(r) && sys_munmap_spec(old_tm, new_tm, args[0], args[1], r)
                && call_ret(call, o) == Some(r) && new_fs == old_fs)
        }),
{
}

/// An `mmap` or `munmap` system call whose start address is not page-aligned,
/// decoded from its id and registers and then served, returns -1 in `a0` and
/// changes neither the tasks nor the file system.
pub proof fn law_unaligned_map_call_refused(
    id: usize,
    args: [usize; 3],
    o: CallOutcome,
    old_tm: TaskManager,
    new_tm: TaskManager,
    old_fs: crate::efs::FsView,
    new_fs: crate::efs::FsView,
)
    requires
        id == SYSCALL_MMAP || id == SYSCALL_MUNMAP,
        args[0] % PAGE_SIZE != 0,
        serve_spec(register_call(decode_syscall(id, args)).unwrap(), o, old_tm, new_tm, old_fs, new_fs),
    ensures
        register_call(decode_syscall(id, args)) is Some,
        call_ret(register_call(decode_syscall(id, args)).unwrap(), o) == Some(-1isize),
        new_tm == old_tm,
        new_fs == old_fs,
{
}

/// The kernel invariant survives a step that only grows the file system.
proof fn lemma_kernel_wf_fs_grows(tm: TaskManager, old_fs: crate::efs::FsView, new_fs: crate::efs::FsView)
    requires
        kernel_wf(tm, old_fs),
        new_fs.wf(),
        old_fs.inode_area_start_block == new_fs.inode_area_start_block,
        old_fs.files.len() <= new_fs.files.len(),
    ensures
        kernel_wf(tm, new_fs),
{
    assert(fds_valid(tm.tasks@[tm.current_task as int].fd_table@, old_fs));
    crate::syscall::lemma_fds_valid_grows(tm.tasks@[tm.current_task as int].fd_table@, old_fs, new_fs);
    lemma_kernel_wf_step(tm, tm, old_fs, new_fs);
}

/// Switching tasks changes states only: every descriptor table stays, and so does the invariant.
proof fn lemma_kernel_wf_switch(old_tm: TaskManager, new_tm: TaskManager, fs: crate::efs::FsView)
    requires
        kernel_wf(old_tm, fs),
        new_tm.wf(),
        new_tm.num_app == old_tm.num_app,
        new_tm.tasks@.len() == old_tm.tasks@.len(),
        forall|k: int| 0 <= k < new_tm.tasks@.len() ==> #[trigger] new_tm.tasks@[k].fd_table@ == old_tm.tasks@[k].fd_table@,
    ensures
        kernel_wf(new_tm, fs),
{
    assert(fds_valid(old_tm.tasks@[old_tm.current_task as int].fd_table@, fs));
    lemma_kernel_wf_step(old_tm, new_tm, fs, fs);
}

/// Serves system call `call` for the current task and stores what it returns
/// in `a0` (`x10`) of the trap context; `exit` leaves the context alone.
pub fn serve_syscall(
    cx: &mut TrapContext,
    tm: &mut TaskManager,
    fs: &mut EasyFileSystem,
    call: KernelCall,
) -> (o: CallOutcome)
    requires
        kernel_wf(*old(tm), old(fs)@),
        call_fits(*old(tm), old(fs)@, call),
    ensures
        kernel_wf(*final(tm), final(fs)@),
        serve_spec(call, o, *old(tm), *final(tm), old(fs)@, final(fs)@),
        final(cx).x@ == match call_ret(call, o) {
            Some(r) => old(cx).x@.update(10, r as usize),
            None => old(cx).x@,
        },
        final(cx).sepc == old(cx).sepc,
        final(cx).sstatus == old(cx).sstatus,
{
    let console_len: isize = match &call {
        KernelCall::Write { fd: _, data } => data.len() as isize,
        _ => 0,
    };
    let ghost call0 = call;
    let ghost tm0 = *tm;
    let ghost fs0 = fs@;
    let o = match call {
        KernelCall::UnlinkAt { name } => CallOutcome::UnlinkAt(sys_unlinkat(fs, name.as_str())),
        KernelCall::LinkAt { old_name, new_name } => CallOutcome::LinkAt(
            sys_linkat(fs, old_name.as_str(), new_name.as_str()),
        ),
        KernelCall::Open { path, flags } => CallOutcome::Open(sys_open(tm, fs, path.as_str(), flags)),
        KernelCall::Close { fd } => CallOutcome::Close(sys_close(tm, fd)),
        KernelCall::Read { fd, len } => CallOutcome::Read(sys_read(tm, fs, fd, len)),
        KernelCall::Fstat { fd } => CallOutcome::Fstat(sys_fstat(tm, fs, fd)),
        KernelCall::Write { fd, data } => CallOutcome::Write(sys_write(tm, fs, fd, data.as_slice())),
        KernelCall::Exit { exit_code: _ } => CallOutcome::Exit(exit_current_and_run_next(tm)),
        KernelCall::Yield => {
            let (_, pair) = sys_yield(tm);
            CallOutcome::Yield(pair)
        },
        KernelCall::GetTime { us, buffer_ok } => CallOutcome::GetTime(
            if buffer_ok {
                Some(sys_get_time(us))
            } else {
                None
            },
        ),
        KernelCall::Mmap { start, len, prot } => CallOutcome::Mmap(sys_mmap(tm, start, len, prot)),
        KernelCall::Munmap { start, len } => CallOutcome::Munmap(sys_munmap(tm, start, len)),
    };
    proof {
        match call0 {
            KernelCall::UnlinkAt { name } => {
                crate::efs::lemma_first_index(fs0.entries, name@);
                lemma_kernel_wf_fs_grows(tm0, fs0, fs@);
            },
            KernelCall::LinkAt { .. } => {
                lemma_kernel_wf_fs_grows(tm0, fs0, fs@);
            },
            KernelCall::Close { fd } => {
                let t = current_view(tm0);
                assert(fds_valid(tm0.tasks@[tm0.current_task as int].fd_table@, fs0));
                if fd_open(t.fd_table, fd) {
                    let nt = tm.tasks@[tm0.current_task as int].fd_table@;
                    assert(nt == t.fd_table.update(fd as int, None));
                    assert forall|i: int| 0 <= i < nt.len() implies (#[trigger] nt[i] matches Some(FileHandle::Inode(f)) ==> fs@.is_file(f.inode)) by {
                        if i != fd {
                            assert(nt[i] == t.fd_table[i]);
                        }
                    }
                }
                lemma_kernel_wf_step(tm0, *tm, fs0, fs@);
            },
            KernelCall::Exit { .. } => {
                if let CallOutcome::Exit(r) = o {
                    lemma_switch_keeps_tables(tm0, *tm, TaskStatus::Exited, r);
                }
                lemma_kernel_wf_switch(tm0, *tm, fs@);
            },
            KernelCall::Yield => {
                if let CallOutcome::Yield(p) = o {
                    lemma_switch_keeps_tables(tm0, *tm, TaskStatus::Ready, Some(p));
                }
                lemma_kernel_wf_switch(tm0, *tm, fs@);
            },
            KernelCall::Mmap { .. } | KernelCall::Munmap { .. } => {
                assert(fds_valid(tm0.tasks@[tm0.current_task as int].fd_table@, fs0));
                lemma_kernel_wf_step(tm0, *tm, fs0, fs@);
            },
            _ => {},
        }
    }
    let ret: Option<isize> = match &o {
        CallOutcome::UnlinkAt(r) => Some(*r),
        CallOutcome::LinkAt(r) => Some(*r),
        CallOutcome::Open(r) => Some(*r),
        CallOutcome::Close(r) => Some(*r),
        CallOutcome::Read(ReadOutcome::Failed) => Some(-1),
        CallOutcome::Read(ReadOutcome::Console) => Some(1),
        CallOutcome::Read(ReadOutcome::Read(d)) => Some(d.len() as isize),
        CallOutcome::Fstat(r) => Some(if r.is_some() { 0 } else { -1 }),
        CallOutcome::Write(WriteOutcome::Failed) => Some(-1),
        CallOutcome::Write(WriteOutcome::Console) => Some(console_len),
        CallOutcome::Write(WriteOutcome::Written(n)) => Some(*n as isize),
        CallOutcome::Exit(_) => None,
        CallOutcome::Yield(_) => Some(0),
        CallOutcome::GetTime(r) => Some(if r.is_some() { 0 } else { -1 }),
        CallOutcome::Mmap(r) => Some(*r),
        CallOutcome::Munmap(r) => Some(*r),
    };
    if let Some(r) = ret {
        cx.set_return(r);
    }
    o
}

/// `len` rounded up to whole pages, when that fits in a `usize`.
fn round_up_checked(len: usize) -> (r: Option<usize>)
    ensures
        r == if round_up_page(len as int) <= usize::MAX {
            Some(round_up_page(len as int) as usize)
        } else {
            None::<usize>
        },
{
    if len % PAGE_SIZE == 0 {
        Some(len)
    } else {
        let q = len / PAGE_SIZE + 1;
        if q > usize::MAX / PAGE_SIZE {
            assert(q * 4096 > usize::MAX) by (nonlinear_arith)
                requires
                    q > usize::MAX / 4096,
            ;
            None
        } else {
            assert(q * 4096 <= usize::MAX) by (nonlinear_arith)
                requires
                    q <= usize::MAX / 4096,
            ;
            Some(q * PAGE_SIZE)
        }
    }
}

/// Whether `mmap(start, len, prot)` can act on its range once its arguments pass the checks.
pub fn mmap_fits_check(start: usize, len: usize, prot: usize) -> (b: bool)
    ensures
        b == mmap_fits(start, len, prot),
{
    if start % PAGE_SIZE != 0 || prot & !0x7usize != 0 || prot & 0x7 == 0 || len == 0 {
        return true;
    }
    match round_up_checked(len) {
        None => false,
        Some(length) => {
            if length > usize::MAX - start {
                false
            } else {
                let s = VirtAddr::from(start).floor();
                let e = VirtAddr::from(start + length).ceil();
                proof {
                    assert(pages_of(start, len) == (s.0 as int, e.0 as int));
                }
                s.0 <= e.0
            }
        },
    }
}

/// Whether the end of `munmap(start, len)`'s range fits in a `usize`.
pub fn munmap_fits_check(start: usize, len: usize) -> (b: bool)
    ensures
        b == munmap_fits(start, len),
{
    if start % PAGE_SIZE != 0 || len == 0 {
        return true;
    }
    match round_up_checked(len) {
        None => false,
        Some(length) => length <= usize::MAX - start,
    }
}

/// Whether `call` can be served without a panic.
pub fn call_fits_check(tm: &TaskManager, fs: &EasyFileSystem, call: &KernelCall) -> (b: bool)
    requires
        kernel_wf(*tm, fs@),
    ensures
        b == call_fits(*tm, fs@, *call),
{
    let cur = tm.current_task;
    let table = &tm.tasks[cur].fd_table;
    match call {
        KernelCall::LinkAt { old_name, new_name } => {
            if *old_name == *new_name {
                return true;
            }
            let root = fs.root_inode();
            if root.find(fs, old_name.as_str()).is_none() {
                return true;
            }
            is_valid_name(new_name.as_str()) && fs.dir_has_room() && fs.dir_blocks_available()
        },
        KernelCall::Open { path, flags } => {
            if OpenFlags::from_bits(*flags).is_none() {
                return false;
            }
            if *flags & OpenFlags::CREATE != OpenFlags::CREATE {
                return true;
            }
            let root = fs.root_inode();
            if root.find(fs, path.as_str()).is_some() {
                return true;
            }
            is_valid_name(path.as_str()) && fs.dir_has_room() && fs.dir_blocks_available()
                && fs.inode_available()
        },
        KernelCall::Read { fd, len } => {
            if *fd < table.len() {
                match table[*fd] {
                    Some(FileHandle::Stdin(_)) => *len == 1,
                    _ => true,
                }
            } else {
                true
            }
        },
        KernelCall::Fstat { fd } => {
            if *fd < table.len() {
                match table[*fd] {
                    Some(FileHandle::Inode(_)) => true,
                    None => true,
                    _ => false,
                }
            } else {
                true
            }
        },
        KernelCall::Write { fd, data } => {
            if *fd < table.len() {
                match table[*fd] {
                    Some(FileHandle::Inode(f)) => {
                        if !f.writable {
                            return true;
                        }
                        if f.offset > MAX_FILE_SIZE || data.len() > MAX_FILE_SIZE - f.offset {
                            return false;
                        }
                        proof {
                            assert(fds_valid(tm.tasks@[cur as int].fd_table@, fs@));
                            assert(table@[*fd as int] matches Some(FileHandle::Inode(g)) ==> fs@.is_file(g.inode));
                        }
                        let id = f.get_inode_id(fs);
                        fs.grow_blocks_available(id as u32, f.offset + data.len())
                    },
                    _ => true,
                }
            } else {
                true
            }
        },
        KernelCall::Mmap { start, len, prot } => mmap_fits_check(*start, *len, *prot),
        KernelCall::Munmap { start, len } => munmap_fits_check(*start, *len),
        _ => true,
    }
}

} // verus!
