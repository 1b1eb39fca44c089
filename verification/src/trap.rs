//! The trap handler's decisions: what caused a trap, and what the kernel does about it.
use vstd::prelude::*;
use riscv::register::scause::{Scause, Trap};
use crate::config::MAX_SYSCALL_NUM;
use crate::syscall::{decode_syscall, syscall, SyscallRequest};
use crate::task::{
    current_became, current_view, exit_current_and_run_next, exit_spec, lemma_switch_keeps_tables,
    record_syscall, suspend_current_and_run_next, suspend_spec, TaskManager, TaskStatus, TaskView,
};

verus! {

/// Exception code of an illegal instruction.
pub const EXC_ILLEGAL_INSTRUCTION: usize = 2;
/// Exception code of a load access fault.
pub const EXC_LOAD_FAULT: usize = 5;
/// Exception code of a store access fault.
pub const EXC_STORE_FAULT: usize = 7;
/// Exception code of an environment call from user mode.
pub const EXC_USER_ENV_CALL: usize = 8;
/// Exception code of a load page fault.
pub const EXC_LOAD_PAGE_FAULT: usize = 13;
/// Exception code of a store page fault.
pub const EXC_STORE_PAGE_FAULT: usize = 15;
/// Interrupt code of the supervisor timer.
pub const IRQ_SUPERVISOR_TIMER: usize = 5;

/// Whether `scause` value `bits` records an interrupt (its top bit).
pub open spec fn scause_is_interrupt(bits: usize) -> bool {
    (bits >> ((usize::BITS - 1) as usize)) == 1usize
}

/// The cause code that `scause` value `bits` records (all bits but the top one).
pub open spec fn scause_code(bits: usize) -> usize {
    bits & (usize::MAX >> 1usize)
}

/// Calls `riscv::register::scause::Scause::from_bits(bits).cause()`, which
/// splits an `scause` value into its interrupt bit (the top bit) and its cause
/// code (the other bits); the contract claims exactly that split.
#[verifier::external_body]
fn scause_cause(bits: usize) -> (r: (bool, usize))
    ensures
        r.0 == scause_is_interrupt(bits),
        r.1 == scause_code(bits),
{
    match Scause::from_bits(bits).cause() {
        Trap::Interrupt(code) => (true, code),
        Trap::Exception(code) => (false, code),
    }
}

/// The causes of a trap that the kernel tells apart.
#[derive(Clone, Copy, Debug, PartialEq, Eq, Structural)]
pub enum TrapCause {
    /// A system call from user mode.
    UserEnvCall,
    /// A store access fault.
    StoreFault,
    /// A store page fault.
    StorePageFault,
    /// A load access fault.
    LoadFault,
    /// A load page fault.
    LoadPageFault,
    /// An illegal instruction.
    IllegalInstruction,
    /// The supervisor timer interrupt.
    SupervisorTimer,
    /// Any other interrupt or exception, with its code.
    Other { interrupt: bool, code: usize },
}

/// The cause named by an interrupt bit and a cause code.
pub open spec fn cause_of(interrupt: bool, code: usize) -> TrapCause {
    if interrupt {
        if code == IRQ_SUPERVISOR_TIMER {
            TrapCause::SupervisorTimer
        } else {
            TrapCause::Other { interrupt, code }
        }
    } else if code == EXC_USER_ENV_CALL {
        TrapCause::UserEnvCall
    } else if code == EXC_STORE_FAULT {
        TrapCause::StoreFault
    } else if code == EXC_STORE_PAGE_FAULT {
        TrapCause::StorePageFault
    } else if code == EXC_LOAD_FAULT {
        TrapCause::LoadFault
    } else if code == EXC_LOAD_PAGE_FAULT {
        TrapCause::LoadPageFault
    } else if code == EXC_ILLEGAL_INSTRUCTION {
        TrapCause::IllegalInstruction
    } else {
        TrapCause::Other { interrupt, code }
    }
}

/// The cause that `scause` value `bits` records.
pub open spec fn cause_of_scause(bits: usize) -> TrapCause {
    cause_of(scause_is_interrupt(bits), scause_code(bits))
}

/// The cause named by an interrupt bit and a cause code.
pub fn decode_cause(interrupt: bool, code: usize) -> (c: TrapCause)
    ensures
        c == cause_of(interrupt, code),
{
    if interrupt {
        if code == IRQ_SUPERVISOR_TIMER {
            TrapCause::SupervisorTimer
        } else {
            TrapCause::Other { interrupt, code }
        }
    } else if code == EXC_USER_ENV_CALL {
        TrapCause::UserEnvCall
    } else if code == EXC_STORE_FAULT {
        TrapCause::StoreFault
    } else if code == EXC_STORE_PAGE_FAULT {
        TrapCause::StorePageFault
    } else if code == EXC_LOAD_FAULT {
        TrapCause::LoadFault
    } else if code == EXC_LOAD_PAGE_FAULT {
        TrapCause::LoadPageFault
    } else if code == EXC_ILLEGAL_INSTRUCTION {
        TrapCause::IllegalInstruction
    } else {
        TrapCause::Other { interrupt, code }
    }
}

/// The cause that `scause` value `bits` records.
pub fn trap_cause(bits: usize) -> (c: TrapCause)
    ensures
        c == cause_of_scause(bits),
{
    let (interrupt, code) = scause_cause(bits);
    decode_cause(interrupt, code)
}

/// The registers saved on a trap: the general registers, `sstatus` and `sepc`.
#[derive(Clone, Copy, Debug)]
pub struct TrapContext {
    /// General registers `x0` to `x31`.
    pub x: [usize; 32],
    /// The saved `sstatus`.
    pub sstatus: usize,
    /// The saved `sepc`: where user mode resumes.
    pub sepc: usize,
}

impl TrapContext {
    /// Stores a system call's return value in register `a0` (`x10`).
    pub fn set_return(&mut self, ret: isize)
        ensures
            final(self).x@ == old(self).x@.update(10, ret as usize),
            final(self).sepc == old(self).sepc,
            final(self).sstatus == old(self).sstatus,
    {
        self.x[10] = ret as usize;
    }
}

/// What the kernel does about a trap.
#[derive(Clone, Copy, Debug, PartialEq, Eq)]
pub enum TrapAction {
    /// Serve this system call, and store its return value in `a0`.
    Syscall(SyscallRequest),
    /// A store fault at `stval` by the instruction at `sepc` ended the task;
    /// report it and perform the switch (`None`: every task has ended).
    StoreFault { stval: usize, sepc: usize, switch: Option<(usize, usize)> },
    /// A load fault at `stval` by the instruction at `sepc` ended the task;
    /// report it and perform the switch (`None`: every task has ended).
    LoadFault { stval: usize, sepc: usize, switch: Option<(usize, usize)> },
    /// An illegal instruction ended the task; report it and perform the switch
    /// (`None`: every task has ended).
    IllegalInstruction { switch: Option<(usize, usize)> },
    /// The timer suspended the task; arm the next timer interrupt and perform the switch.
    Preempt { switch: (usize, usize) },
    /// Stop: the kernel does not handle this trap.
    Unsupported { cause: TrapCause, stval: usize },
}

/// The trap can be handled without overflow: a system call moves `sepc` past
/// the call instruction and counts the call.
pub open spec fn trap_fits(cx: TrapContext, tm: TaskManager, scause_bits: usize) -> bool {
    cause_of_scause(scause_bits) == TrapCause::UserEnvCall ==> {
        &&& cx.sepc + 4 <= usize::MAX
        &&& cx.x[17] < MAX_SYSCALL_NUM ==> current_view(tm).syscall_times[cx.x[17] as int] < usize::MAX
    }
}

/// Whether the trap can be handled without overflow.
pub fn trap_fits_check(cx: &TrapContext, tm: &TaskManager, scause_bits: usize) -> (b: bool)
    requires
        tm.wf(),
        tm.num_app > 0,
    ensures
        b == trap_fits(*cx, *tm, scause_bits),
{
    if trap_cause(scause_bits) != TrapCause::UserEnvCall {
        return true;
    }
    if cx.sepc > usize::MAX - 4 {
        return false;
    }
    let id = cx.x[17];
    if id < MAX_SYSCALL_NUM {
        tm.tasks[tm.current_task].syscall_times[id] < usize::MAX
    } else {
        true
    }
}

/// Handles a trap with cause `scause_bits` and value `stval`. A system call
/// moves `sepc` past the call instruction, is counted for the current task
/// (when its id is below `MAX_SYSCALL_NUM`) and is returned decoded, to be
/// served by `serve_syscall`; a fault ends the current task and the timer
/// suspends it, switching to the next ready task; any other trap is unsupported.
/// No descriptor table changes.
pub fn trap_handler(cx: &mut TrapContext, tm: &mut TaskManager, scause_bits: usize, stval: usize) -> (a: TrapAction)
    requires
        old(tm).wf(),
        old(tm).num_app > 0,
        trap_fits(*old(cx), *old(tm), scause_bits),
    ensures
        final(tm).wf(),
        final(cx).x == old(cx).x,
        final(cx).sstatus == old(cx).sstatus,
        final(tm).tasks@.len() == old(tm).tasks@.len(),
        forall|k: int| 0 <= k < final(tm).tasks@.len() ==> #[trigger] final(tm).tasks@[k].fd_table@ == old(tm).tasks@[k].fd_table@,
        match cause_of_scause(scause_bits) {
            TrapCause::UserEnvCall => {
                let id = old(cx).x[17];
                let t = current_view(*old(tm));
                &&& final(cx).sepc == old(cx).sepc + 4
                &&& a == TrapAction::Syscall(decode_syscall(id, [old(cx).x[10], old(cx).x[11], old(cx).x[12]]))
                &&& if id < MAX_SYSCALL_NUM {
                    current_became(*old(tm), *final(tm), TaskView {
                        syscall_times: t.syscall_times.update(id as int, (t.syscall_times[id as int] + 1) as usize),
                        ..t
                    })
                } else {
                    *final(tm) == *old(tm)
                }
            },
            TrapCause::StoreFault | TrapCause::StorePageFault => {
                &&& a matches TrapAction::StoreFault { stval: v, sepc: e, switch: w }
                &&& v == stval && e == old(cx).sepc && exit_spec(*old(tm), *final(tm), w)
                &&& final(cx).sepc == old(cx).sepc
            },
            TrapCause::LoadFault | TrapCause::LoadPageFault => {
                &&& a matches TrapAction::LoadFault { stval: v, sepc: e, switch: w }
                &&& v == stval && e == old(cx).sepc && exit_spec(*old(tm), *final(tm), w)
                &&& final(cx).sepc == old(cx).sepc
            },
            TrapCause::IllegalInstruction => {
                &&& a matches TrapAction::IllegalInstruction { switch: w }
                &&& exit_spec(*old(tm), *final(tm), w)
                &&& final(cx).sepc == old(cx).sepc
            },
            TrapCause::SupervisorTimer => {
                &&& a matches TrapAction::Preempt { switch: w }
                &&& suspend_spec(*old(tm), *final(tm), w)
                &&& final(cx).sepc == old(cx).sepc
            },
            TrapCause::Other { .. } => {
                &&& a == TrapAction::Unsupported { cause: cause_of_scause(scause_bits), stval }
                &&& final(cx).sepc == old(cx).sepc
                &&& *final(tm) == *old(tm)
            },
        },
{
    let cause = trap_cause(scause_bits);
    match cause {
        TrapCause::UserEnvCall => {
            cx.sepc = cx.sepc + 4;
            let syscall_id = cx.x[17];
            record_syscall(tm, syscall_id);
            TrapAction::Syscall(syscall(syscall_id, [cx.x[10], cx.x[11], cx.x[12]]))
        },
        TrapCause::StoreFault | TrapCause::StorePageFault => {
            let switch = exit_current_and_run_next(tm);
            proof {
                lemma_switch_keeps_tables(*old(tm), *tm, TaskStatus::Exited, switch);
            }
            TrapAction::StoreFault { stval, sepc: cx.sepc, switch }
        },
        TrapCause::LoadFault | TrapCause::LoadPageFault => {
            let switch = exit_current_and_run_next(tm);
            proof {
                lemma_switch_keeps_tables(*old(tm), *tm, TaskStatus::Exited, switch);
            }
            TrapAction::LoadFault { stval, sepc: cx.sepc, switch }
        },
        TrapCause::IllegalInstruction => {
            let switch = exit_current_and_run_next(tm);
            proof {
                lemma_switch_keeps_tables(*old(tm), *tm, TaskStatus::Exited, switch);
            }
            TrapAction::IllegalInstruction { switch }
        },
        TrapCause::SupervisorTimer => {
            let switch = suspend_current_and_run_next(tm);
            proof {
                lemma_switch_keeps_tables(*old(tm), *tm, TaskStatus::Ready, Some(switch));
            }
            TrapAction::Preempt { switch }
        },
        TrapCause::Other { .. } => TrapAction::Unsupported { cause, stval },
    }
}

} // verus!
