use std::sync::Arc;

use rcore_os::config::MAX_SYSCALL_NUM;
use rcore_os::manager;
use rcore_os::mm::{MapArea, MapPermission, MemorySet, VPNRange, VirtAddr, VirtPageNum};
use rcore_os::syscall::{
    sys_get_time, sys_mmap, sys_munmap, sys_yield, syscall, SyscallRequest, SYSCALL_CLOSE,
    SYSCALL_EXIT, SYSCALL_FSTAT, SYSCALL_GET_TIME, SYSCALL_LINKAT, SYSCALL_MMAP, SYSCALL_MUNMAP,
    SYSCALL_OPEN, SYSCALL_READ, SYSCALL_UNLINKAT, SYSCALL_WRITE, SYSCALL_YIELD,
};
use rcore_os::task::{
    exit_current_and_run_next, suspend_current_and_run_next, task_have_mapped, task_mmap,
    task_munmap, record_syscall, TaskContext, TaskControlBlock, TaskManager, TaskStatus,
};
use rcore_os::trap::{
    decode_cause, trap_cause, trap_fits_check, trap_handler, TrapAction, TrapCause, TrapContext,
};

fn task() -> TaskControlBlock {
    TaskControlBlock::new(MemorySet::new_bare(), TaskContext::zero_init())
}

fn manager_of(n: usize) -> TaskManager {
    let mut v = Vec::new();
    for _ in 0..n {
        v.push(task());
    }
    TaskManager::new(v)
}

fn statuses(tm: &TaskManager) -> Vec<TaskStatus> {
    tm.tasks.iter().map(|t| t.task_status).collect()
}

#[test]
fn munmap_needs_the_exact_range() {
    let mut tm = manager_of(1);
    let start: usize = 0x10000000;
    let len: usize = 4096;
    let prot: usize = 3;
    assert_eq!(0, sys_mmap(&mut tm, start, len, prot));
    assert_eq!(sys_munmap(&mut tm, start, len + 1), -1);
    assert_eq!(sys_munmap(&mut tm, start + 1, len - 1), -1);
    assert_eq!(sys_munmap(&mut tm, start, len), 0);
    assert!(tm.tasks[0].memory_set.areas.is_empty());
}

#[test]
fn mmap_checks_its_arguments() {
    let mut tm = manager_of(1);
    assert_eq!(sys_mmap(&mut tm, 0x1001, 4096, 1), -1);
    assert_eq!(sys_mmap(&mut tm, 0x1000, 4096, 8), -1);
    assert_eq!(sys_mmap(&mut tm, 0x1000, 4096, 0), -1);
    assert_eq!(sys_mmap(&mut tm, 0x1000, 0, 1), 0);
    assert!(tm.tasks[0].memory_set.areas.is_empty());
    assert_eq!(sys_munmap(&mut tm, 0x1001, 4096), -1);
    assert_eq!(sys_munmap(&mut tm, 0x1000, 0), 0);
}

#[test]
fn mmap_rounds_up_and_sets_rights() {
    let mut tm = manager_of(1);
    assert_eq!(sys_mmap(&mut tm, 0x2000, 5000, 5), 0);
    let a = tm.tasks[0].memory_set.areas[0];
    assert_eq!(a.vpn_range.l, VirtPageNum(2));
    assert_eq!(a.vpn_range.r, VirtPageNum(4));
    assert_eq!(a.map_perm.bits, MapPermission::U | MapPermission::R | MapPermission::X);
    assert_eq!(sys_mmap(&mut tm, 0x3000, 4096, 2), -1);
    assert_eq!(sys_mmap(&mut tm, 0x4000, 4096, 7), 0);
    assert_eq!(tm.tasks[0].memory_set.areas[1].map_perm.bits, 0x1e);
    assert!(task_have_mapped(&tm, VirtPageNum(3)));
    assert!(task_have_mapped(&tm, VirtPageNum(4)));
    assert!(!task_have_mapped(&tm, VirtPageNum(5)));
    assert_eq!(sys_munmap(&mut tm, 0x2000, 8192), 0);
    assert!(!task_have_mapped(&tm, VirtPageNum(3)));
}

#[test]
fn task_mmap_refuses_overlap() {
    let mut tm = manager_of(1);
    let perm = MapPermission { bits: MapPermission::U | MapPermission::R };
    assert_eq!(task_mmap(&mut tm, VirtAddr(0x1000), VirtAddr(0x3000), perm), 0);
    assert_eq!(task_mmap(&mut tm, VirtAddr(0x2000), VirtAddr(0x4000), perm), -1);
    assert_eq!(task_mmap(&mut tm, VirtAddr(0x3000), VirtAddr(0x4000), perm), 0);
    assert_eq!(task_munmap(&mut tm, VirtAddr(0x1000), VirtAddr(0x2000)), -1);
    assert_eq!(task_munmap(&mut tm, VirtAddr(0x1000), VirtAddr(0x3000)), 0);
    assert_eq!(tm.tasks[0].memory_set.areas.len(), 1);
}

#[test]
fn addresses_and_pages() {
    assert_eq!(VirtAddr::from(0x1234).0, 0x1234);
    assert_eq!(VirtAddr::from(0x80_0000_1000).0, 0x1000);
    assert_eq!(VirtAddr(0x1fff).floor(), VirtPageNum(1));
    assert_eq!(VirtAddr(0x1fff).ceil(), VirtPageNum(2));
    assert_eq!(VirtAddr(0x2000).ceil(), VirtPageNum(2));
    assert_eq!(VirtAddr(0).ceil(), VirtPageNum(0));
    let r = VPNRange::new(VirtPageNum(2), VirtPageNum(4));
    assert!(r.contains(VirtPageNum(3)) && !r.contains(VirtPageNum(4)));
    let a = MapArea::new(VirtAddr(0x1800), VirtAddr(0x2800), MapPermission { bits: 0 });
    assert_eq!((a.vpn_range.get_start(), a.vpn_range.get_end()), (VirtPageNum(1), VirtPageNum(3)));
    let mut ms = MemorySet::new_bare();
    ms.insert_framed_area(VirtAddr(0x1000), VirtAddr(0x2000), MapPermission { bits: 2 });
    assert_eq!(ms.translate(VirtPageNum(1)), Some(MapPermission { bits: 2 }));
    assert_eq!(ms.remove_area_with_start_vpn(VirtPageNum(5)), None);
    assert_eq!(ms.remove_area_with_start_vpn(VirtPageNum(1)), Some(()));
    assert_eq!(ms.translate(VirtPageNum(1)), None);
}

#[test]
fn round_robin_takes_turns() {
    let mut tm = manager_of(3);
    tm.run_first_task();
    assert_eq!(statuses(&tm), vec![TaskStatus::Running, TaskStatus::Ready, TaskStatus::Ready]);
    assert_eq!(suspend_current_and_run_next(&mut tm), (0, 1));
    assert_eq!(statuses(&tm), vec![TaskStatus::Ready, TaskStatus::Running, TaskStatus::Ready]);
    assert_eq!(sys_yield(&mut tm), (0, (1, 2)));
    assert_eq!(exit_current_and_run_next(&mut tm), Some((2, 0)));
    assert_eq!(tm.find_next_task(), Some(1));
    assert_eq!(exit_current_and_run_next(&mut tm), Some((0, 1)));
    assert_eq!(suspend_current_and_run_next(&mut tm), (1, 1));
    assert_eq!(exit_current_and_run_next(&mut tm), None);
    assert_eq!(statuses(&tm), vec![TaskStatus::Exited, TaskStatus::Exited, TaskStatus::Exited]);
}

#[test]
fn marks_change_only_the_current_task() {
    let mut tm = manager_of(2);
    tm.mark_current_suspended();
    assert_eq!(statuses(&tm), vec![TaskStatus::Ready, TaskStatus::Ready]);
    tm.mark_current_exited();
    assert_eq!(statuses(&tm), vec![TaskStatus::Exited, TaskStatus::Ready]);
    assert_eq!(tm.find_next_task(), Some(1));
}

#[test]
fn fifo_manager_keeps_order() {
    let mut m = manager::TaskManager::new();
    assert!(m.fetch().is_none());
    let a = Arc::new(task());
    let mut b_task = task();
    b_task.start_time = 7;
    let b = Arc::new(b_task);
    m.add(a.clone());
    m.add(b.clone());
    assert!(Arc::ptr_eq(&m.fetch().unwrap(), &a));
    let second = m.fetch().unwrap();
    assert!(Arc::ptr_eq(&second, &b));
    assert_eq!(second.start_time, 7);
    assert!(m.fetch().is_none());
}

#[test]
fn syscall_ids_decode() {
    assert_eq!(syscall(SYSCALL_WRITE, [1, 2, 3]), SyscallRequest::Write { fd: 1, buf: 2, len: 3 });
    assert_eq!(syscall(SYSCALL_EXIT, [usize::MAX, 0, 0]), SyscallRequest::Exit { exit_code: -1 });
    assert_eq!(syscall(SYSCALL_YIELD, [0, 0, 0]), SyscallRequest::Yield);
    assert_eq!(syscall(SYSCALL_GET_TIME, [8, 9, 10]), SyscallRequest::GetTime { ts: 8, tz: 9 });
    assert_eq!(syscall(SYSCALL_MMAP, [4096, 10, 3]), SyscallRequest::Mmap { start: 4096, len: 10, prot: 3 });
    assert_eq!(syscall(SYSCALL_MUNMAP, [4096, 10, 3]), SyscallRequest::Munmap { start: 4096, len: 10 });
    assert_eq!(syscall(SYSCALL_OPEN, [0x100, 0x201, 0]), SyscallRequest::Open { path: 0x100, flags: 0x201 });
    assert_eq!(syscall(SYSCALL_CLOSE, [3, 0, 0]), SyscallRequest::Close { fd: 3 });
    assert_eq!(syscall(SYSCALL_READ, [3, 0x40, 9]), SyscallRequest::Read { fd: 3, buf: 0x40, len: 9 });
    assert_eq!(syscall(SYSCALL_LINKAT, [0x10, 0x20, 0]), SyscallRequest::LinkAt { old_name: 0x10, new_name: 0x20 });
    assert_eq!(syscall(SYSCALL_UNLINKAT, [0x10, 0, 0]), SyscallRequest::UnlinkAt { name: 0x10 });
    assert_eq!(syscall(SYSCALL_FSTAT, [3, 0x50, 0]), SyscallRequest::Fstat { fd: 3, st: 0x50 });
    assert_eq!(syscall(410, [0, 0, 0]), SyscallRequest::Unsupported { syscall_id: 410 });
}

#[test]
fn time_splits_into_seconds_and_microseconds() {
    let tv = sys_get_time(3_500_042);
    assert_eq!((tv.sec, tv.usec), (3, 500_042));
    let tv = sys_get_time(999_999);
    assert_eq!((tv.sec, tv.usec), (0, 999_999));
}

#[test]
fn scause_values_decode() {
    let top = 1usize << (usize::BITS - 1);
    assert_eq!(trap_cause(8), TrapCause::UserEnvCall);
    assert_eq!(trap_cause(15), TrapCause::StorePageFault);
    assert_eq!(trap_cause(7), TrapCause::StoreFault);
    assert_eq!(trap_cause(5), TrapCause::LoadFault);
    assert_eq!(trap_cause(13), TrapCause::LoadPageFault);
    assert_eq!(trap_cause(2), TrapCause::IllegalInstruction);
    assert_eq!(trap_cause(top | 5), TrapCause::SupervisorTimer);
    assert_eq!(trap_cause(top | 9), TrapCause::Other { interrupt: true, code: 9 });
    assert_eq!(trap_cause(3), TrapCause::Other { interrupt: false, code: 3 });
    assert_eq!(decode_cause(true, 8), TrapCause::Other { interrupt: true, code: 8 });
}

#[test]
fn trap_handler_counts_system_calls() {
    let mut tm = manager_of(1);
    let mut cx = TrapContext { x: [0; 32], sstatus: 0, sepc: 0x1000 };
    cx.x[17] = SYSCALL_YIELD;
    let action = trap_handler(&mut cx, &mut tm, 8, 0);
    assert_eq!(action, TrapAction::Syscall(SyscallRequest::Yield));
    assert_eq!(cx.sepc, 0x1004);
    assert_eq!(tm.tasks[0].syscall_times[SYSCALL_YIELD], 1);
    cx.set_return(-1);
    assert_eq!(cx.x[10], usize::MAX);
    cx.x[17] = MAX_SYSCALL_NUM + 3;
    let action = trap_handler(&mut cx, &mut tm, 8, 0);
    assert_eq!(action, TrapAction::Syscall(SyscallRequest::Unsupported { syscall_id: MAX_SYSCALL_NUM + 3 }));
    assert_eq!(tm.tasks[0].syscall_times.iter().sum::<usize>(), 1);
    record_syscall(&mut tm, SYSCALL_YIELD);
    assert_eq!(tm.tasks[0].syscall_times[SYSCALL_YIELD], 2);
}

#[test]
fn trap_handler_reports_faults_and_timer() {
    let mut tm = manager_of(3);
    tm.run_first_task();
    let mut cx = TrapContext { x: [0; 32], sstatus: 0, sepc: 0x2000 };
    let top = 1usize << (usize::BITS - 1);
    assert_eq!(trap_handler(&mut cx, &mut tm, top | 5, 0), TrapAction::Preempt { switch: (0, 1) });
    assert_eq!(statuses(&tm), vec![TaskStatus::Ready, TaskStatus::Running, TaskStatus::Ready]);
    assert_eq!(
        trap_handler(&mut cx, &mut tm, 15, 0xdead),
        TrapAction::StoreFault { stval: 0xdead, sepc: 0x2000, switch: Some((1, 2)) }
    );
    assert_eq!(
        trap_handler(&mut cx, &mut tm, 13, 0xbeef),
        TrapAction::LoadFault { stval: 0xbeef, sepc: 0x2000, switch: Some((2, 0)) }
    );
    assert_eq!(statuses(&tm), vec![TaskStatus::Running, TaskStatus::Exited, TaskStatus::Exited]);
    assert_eq!(
        trap_handler(&mut cx, &mut tm, 3, 1),
        TrapAction::Unsupported { cause: TrapCause::Other { interrupt: false, code: 3 }, stval: 1 }
    );
    assert_eq!(trap_handler(&mut cx, &mut tm, 2, 0), TrapAction::IllegalInstruction { switch: None });
    assert_eq!(statuses(&tm), vec![TaskStatus::Exited, TaskStatus::Exited, TaskStatus::Exited]);
    assert_eq!(cx.sepc, 0x2000);
    assert!(trap_fits_check(&cx, &tm, 2));
    assert!(trap_fits_check(&cx, &tm, 8));
    cx.sepc = usize::MAX - 2;
    assert!(!trap_fits_check(&cx, &tm, 8));
    assert!(trap_fits_check(&cx, &tm, 2));
}

#[test]
fn task_info_counts_each_write() {
    let mut tm = manager_of(1);
    tm.run_first_task();
    let mut cx = TrapContext { x: [0; 32], sstatus: 0, sepc: 0x10000 };
    for _ in 0..3 {
        cx.x[17] = SYSCALL_WRITE;
        cx.x[10] = 1;
        let action = trap_handler(&mut cx, &mut tm, 8, 0);
        assert_eq!(action, TrapAction::Syscall(SyscallRequest::Write { fd: 1, buf: 0, len: 0 }));
    }
    assert_eq!(tm.tasks[0].syscall_times[SYSCALL_WRITE], 3);
    assert_eq!(tm.tasks[0].task_status, TaskStatus::Running);
    assert_eq!(cx.sepc, 0x10000 + 12);
    let total: usize = tm.tasks[0].syscall_times.iter().sum();
    assert_eq!(total, 3);
}
