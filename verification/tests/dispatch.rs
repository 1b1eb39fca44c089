use rcore_os::dispatch::{
    call_fits_check, mmap_fits_check, munmap_fits_check, register_call_of, serve_syscall, CallOutcome,
    KernelCall,
};
use rcore_os::efs::EasyFileSystem;
use rcore_os::fs::{OpenFlags, StatMode};
use rcore_os::mm::MemorySet;
use rcore_os::syscall::{ReadOutcome, TimeVal, WriteOutcome};
use rcore_os::task::{TaskContext, TaskControlBlock, TaskManager, TaskStatus};
use rcore_os::syscall::SyscallRequest;
use rcore_os::trap::{trap_fits_check, trap_handler, TrapAction, TrapContext};

fn kernel(n: usize) -> (TrapContext, TaskManager, EasyFileSystem) {
    let mut v = Vec::new();
    for _ in 0..n {
        v.push(TaskControlBlock::new(MemorySet::new_bare(), TaskContext::zero_init()));
    }
    let mut tm = TaskManager::new(v);
    tm.run_first_task();
    (TrapContext { x: [0; 32], sstatus: 0, sepc: 0 }, tm, EasyFileSystem::create(2, 64, 4096))
}

fn serve(cx: &mut TrapContext, tm: &mut TaskManager, fs: &mut EasyFileSystem, call: KernelCall) -> CallOutcome {
    assert!(call_fits_check(tm, fs, &call));
    serve_syscall(cx, tm, fs, call)
}

fn ret(cx: &TrapContext) -> isize {
    cx.x[10] as isize
}

#[test]
fn file_calls_are_served_and_return_in_a0() {
    let (mut cx, mut tm, mut fs) = kernel(1);
    let open = KernelCall::Open { path: "fname2".to_string(), flags: OpenFlags::CREATE | OpenFlags::WRONLY };
    assert!(matches!(serve(&mut cx, &mut tm, &mut fs, open), CallOutcome::Open(3)));
    assert_eq!(ret(&cx), 3);
    let link = KernelCall::LinkAt { old_name: "fname2".to_string(), new_name: "linkname0".to_string() };
    assert!(matches!(serve(&mut cx, &mut tm, &mut fs, link), CallOutcome::LinkAt(0)));
    assert_eq!(ret(&cx), 0);
    match serve(&mut cx, &mut tm, &mut fs, KernelCall::Fstat { fd: 3 }) {
        CallOutcome::Fstat(Some(st)) => {
            assert_eq!(st.nlink, 2);
            assert_eq!(st.mode, StatMode::File);
        }
        other => panic!("unexpected {:?}", other),
    }
    assert_eq!(ret(&cx), 0);
    let write = KernelCall::Write { fd: 3, data: b"Hello, world!".to_vec() };
    assert!(matches!(serve(&mut cx, &mut tm, &mut fs, write), CallOutcome::Write(WriteOutcome::Written(13))));
    assert_eq!(ret(&cx), 13);
    assert!(matches!(serve(&mut cx, &mut tm, &mut fs, KernelCall::Close { fd: 3 }), CallOutcome::Close(0)));
    let unlink = KernelCall::UnlinkAt { name: "fname2".to_string() };
    assert!(matches!(serve(&mut cx, &mut tm, &mut fs, unlink), CallOutcome::UnlinkAt(0)));
    let open = KernelCall::Open { path: "linkname0".to_string(), flags: OpenFlags::RDONLY };
    assert!(matches!(serve(&mut cx, &mut tm, &mut fs, open), CallOutcome::Open(3)));
    match serve(&mut cx, &mut tm, &mut fs, KernelCall::Read { fd: 3, len: 100 }) {
        CallOutcome::Read(ReadOutcome::Read(data)) => assert_eq!(data, b"Hello, world!".to_vec()),
        other => panic!("unexpected {:?}", other),
    }
    assert_eq!(ret(&cx), 13);
    assert!(matches!(serve(&mut cx, &mut tm, &mut fs, KernelCall::Fstat { fd: 9 }), CallOutcome::Fstat(None)));
    assert_eq!(ret(&cx), -1);
    assert!(matches!(serve(&mut cx, &mut tm, &mut fs, KernelCall::Close { fd: 9 }), CallOutcome::Close(-1)));
    assert_eq!(ret(&cx), -1);
}

#[test]
fn console_calls_return_their_lengths() {
    let (mut cx, mut tm, mut fs) = kernel(1);
    let write = KernelCall::Write { fd: 1, data: b"hey".to_vec() };
    assert!(matches!(serve(&mut cx, &mut tm, &mut fs, write), CallOutcome::Write(WriteOutcome::Console)));
    assert_eq!(ret(&cx), 3);
    assert!(matches!(
        serve(&mut cx, &mut tm, &mut fs, KernelCall::Read { fd: 0, len: 1 }),
        CallOutcome::Read(ReadOutcome::Console)
    ));
    assert_eq!(ret(&cx), 1);
    let write = KernelCall::Write { fd: 0, data: b"x".to_vec() };
    assert!(matches!(serve(&mut cx, &mut tm, &mut fs, write), CallOutcome::Write(WriteOutcome::Failed)));
    assert_eq!(ret(&cx), -1);
}

#[test]
fn misaligned_mmap_is_refused_through_the_dispatcher() {
    let (mut cx, mut tm, mut fs) = kernel(1);
    let mmap = KernelCall::Mmap { start: 0x10000001, len: 4096, prot: 3 };
    assert!(matches!(serve(&mut cx, &mut tm, &mut fs, mmap), CallOutcome::Mmap(-1)));
    assert_eq!(ret(&cx), -1);
    assert!(tm.tasks[0].memory_set.areas.is_empty());
    let munmap = KernelCall::Munmap { start: 0x10000001, len: 4095 };
    assert!(matches!(serve(&mut cx, &mut tm, &mut fs, munmap), CallOutcome::Munmap(-1)));
    assert!(tm.tasks[0].memory_set.areas.is_empty());
    let mmap = KernelCall::Mmap { start: 0x10000000, len: 4096, prot: 3 };
    assert!(matches!(serve(&mut cx, &mut tm, &mut fs, mmap), CallOutcome::Mmap(0)));
    assert_eq!(tm.tasks[0].memory_set.areas.len(), 1);
}

#[test]
fn exit_and_yield_switch_tasks() {
    let (mut cx, mut tm, mut fs) = kernel(2);
    cx.x[10] = 77;
    assert!(matches!(serve(&mut cx, &mut tm, &mut fs, KernelCall::Yield), CallOutcome::Yield((0, 1))));
    assert_eq!(ret(&cx), 0);
    cx.x[10] = 77;
    assert!(matches!(
        serve(&mut cx, &mut tm, &mut fs, KernelCall::Exit { exit_code: 0 }),
        CallOutcome::Exit(Some((1, 0)))
    ));
    assert_eq!(cx.x[10], 77);
    assert!(matches!(serve(&mut cx, &mut tm, &mut fs, KernelCall::Exit { exit_code: 0 }), CallOutcome::Exit(None)));
    assert_eq!(tm.tasks[0].task_status, TaskStatus::Exited);
    assert_eq!(tm.tasks[1].task_status, TaskStatus::Exited);
}

#[test]
fn get_time_fills_the_buffer_when_mapped() {
    let (mut cx, mut tm, mut fs) = kernel(1);
    match serve(&mut cx, &mut tm, &mut fs, KernelCall::GetTime { us: 2_000_001, buffer_ok: true }) {
        CallOutcome::GetTime(Some(tv)) => assert_eq!(tv, TimeVal { sec: 2, usec: 1 }),
        other => panic!("unexpected {:?}", other),
    }
    assert_eq!(ret(&cx), 0);
    assert!(matches!(
        serve(&mut cx, &mut tm, &mut fs, KernelCall::GetTime { us: 5, buffer_ok: false }),
        CallOutcome::GetTime(None)
    ));
    assert_eq!(ret(&cx), -1);
}

#[test]
fn calls_that_would_overrun_limits_are_flagged() {
    let (_cx, tm, mut fs) = kernel(1);
    assert!(!call_fits_check(&tm, &fs, &KernelCall::Open { path: "f".to_string(), flags: 0x800 }));
    let long = "abcdefghijklmnopqrstuvwxyz01".to_string();
    assert!(!call_fits_check(&tm, &fs, &KernelCall::Open { path: long.clone(), flags: OpenFlags::CREATE }));
    assert!(call_fits_check(&tm, &fs, &KernelCall::Open { path: long.clone(), flags: OpenFlags::RDONLY }));
    assert!(!call_fits_check(&tm, &fs, &KernelCall::Read { fd: 0, len: 2 }));
    assert!(!call_fits_check(&tm, &fs, &KernelCall::Fstat { fd: 1 }));
    assert!(call_fits_check(&tm, &fs, &KernelCall::Fstat { fd: 5 }));
    let root = fs.root_inode();
    root.create(&mut fs, "a").unwrap();
    assert!(!call_fits_check(&tm, &fs, &KernelCall::LinkAt { old_name: "a".to_string(), new_name: long.clone() }));
    assert!(call_fits_check(&tm, &fs, &KernelCall::LinkAt { old_name: "b".to_string(), new_name: long }));
    assert!(!mmap_fits_check(usize::MAX - 4095, 8192, 3));
    assert!(mmap_fits_check(usize::MAX - 4095, 8192, 0));
    assert!(mmap_fits_check(0x1000, 4096, 3));
    assert!(!munmap_fits_check(usize::MAX - 4095, 8192));
    assert!(munmap_fits_check(0x1000, 0));
}

#[test]
fn calls_that_need_more_blocks_than_are_free_do_not_fit() {
    let mut v = Vec::new();
    v.push(TaskControlBlock::new(MemorySet::new_bare(), TaskContext::zero_init()));
    let mut tm = TaskManager::new(v);
    tm.run_first_task();
    let mut cx = TrapContext { x: [0; 32], sstatus: 0, sepc: 0 };
    let mut fs = EasyFileSystem::create(2, 64, 1);
    let open = KernelCall::Open { path: "a".to_string(), flags: OpenFlags::CREATE | OpenFlags::RDWR };
    assert!(matches!(serve(&mut cx, &mut tm, &mut fs, open), CallOutcome::Open(3)));
    assert_eq!(fs.free_data_blocks(), 0);
    // The directory's block has room for 15 more entries, which need no block.
    let link = KernelCall::LinkAt { old_name: "a".to_string(), new_name: "b".to_string() };
    assert!(call_fits_check(&tm, &fs, &link));
    // The file has no block and none is free.
    assert!(!call_fits_check(&tm, &fs, &KernelCall::Write { fd: 3, data: b"x".to_vec() }));
    assert!(call_fits_check(&tm, &fs, &KernelCall::Write { fd: 3, data: Vec::new() }));
}

#[test]
fn unaligned_mmap_from_registers_returns_minus_one() {
    let (mut cx, mut tm, mut fs) = kernel(1);
    cx.sepc = 0x1000;
    cx.x[17] = 222;
    cx.x[10] = 0x10000001;
    cx.x[11] = 4096;
    cx.x[12] = 3;
    assert!(trap_fits_check(&cx, &tm, 8));
    let action = trap_handler(&mut cx, &mut tm, 8, 0);
    assert_eq!(cx.sepc, 0x1004);
    let req = match action {
        TrapAction::Syscall(req) => req,
        other => panic!("unexpected {:?}", other),
    };
    assert_eq!(req, SyscallRequest::Mmap { start: 0x10000001, len: 4096, prot: 3 });
    let call = register_call_of(req).unwrap();
    assert!(matches!(serve(&mut cx, &mut tm, &mut fs, call), CallOutcome::Mmap(-1)));
    assert_eq!(ret(&cx), -1);
    assert!(tm.tasks[0].memory_set.areas.is_empty());

    cx.x[17] = 215;
    cx.x[10] = 0x10000001;
    cx.x[11] = 4095;
    let action = trap_handler(&mut cx, &mut tm, 8, 0);
    let call = match action {
        TrapAction::Syscall(req) => register_call_of(req).unwrap(),
        other => panic!("unexpected {:?}", other),
    };
    assert!(matches!(serve(&mut cx, &mut tm, &mut fs, call), CallOutcome::Munmap(-1)));
    assert_eq!(ret(&cx), -1);
    assert!(tm.tasks[0].memory_set.areas.is_empty());
}

#[test]
fn register_calls_need_no_user_memory() {
    assert!(matches!(register_call_of(SyscallRequest::Close { fd: 4 }), Some(KernelCall::Close { fd: 4 })));
    assert!(matches!(
        register_call_of(SyscallRequest::Read { fd: 3, buf: 0x1000, len: 9 }),
        Some(KernelCall::Read { fd: 3, len: 9 })
    ));
    assert!(matches!(register_call_of(SyscallRequest::Yield), Some(KernelCall::Yield)));
    assert!(register_call_of(SyscallRequest::UnlinkAt { name: 0x1000 }).is_none());
    assert!(register_call_of(SyscallRequest::Write { fd: 1, buf: 0x1000, len: 3 }).is_none());
    assert!(register_call_of(SyscallRequest::GetTime { ts: 0x1000, tz: 0 }).is_none());
    assert!(register_call_of(SyscallRequest::Unsupported { syscall_id: 1 }).is_none());
}
