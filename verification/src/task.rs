//! Tasks and the round-robin task manager.
use vstd::prelude::*;
use crate::config::MAX_SYSCALL_NUM;
use crate::fs::{FileHandle, Stdin, Stdout};
use crate::mm::{
    has_area_exactly, area_contains, ceil_spec, first_area_starting_at, floor_spec, range_overlaps, MapArea,
    MapPermission, MemorySet, VPNRange, VirtAddr, VirtPageNum,
};

verus! {

/// The state of a task.
#[derive(Clone, Copy, Debug, PartialEq, Eq, Structural)]
pub enum TaskStatus {
    /// Not yet set up.
    UnInit,
    /// Waiting to run.
    Ready,
    /// Running now.
    Running,
    /// Finished.
    Exited,
}

/// The registers a task switch saves: return address, stack pointer and
/// the callee-saved registers.
#[derive(Clone, Copy, Debug)]
pub struct TaskContext {
    /// Return address.
    pub ra: usize,
    /// Stack pointer.
    pub sp: usize,
    /// Callee-saved registers `s0` to `s11`.
    pub s: [usize; 12],
}

impl TaskContext {
    /// A context with every register zero.
    pub fn zero_init() -> (cx: TaskContext)
        ensures
            cx.ra == 0,
            cx.sp == 0,
            forall|i: int| 0 <= i < 12 ==> cx.s[i] == 0,
    {
        TaskContext { ra: 0, sp: 0, s: [0usize; 12] }
    }
}

/// A task: its state, saved context, system-call counters, timing, memory
/// areas and file descriptors.
pub struct TaskControlBlock {
    /// The task's state.
    pub task_status: TaskStatus,
    /// The saved context.
    pub task_cx: TaskContext,
    /// How many times the task made each system call.
    pub syscall_times: [usize; MAX_SYSCALL_NUM],
    /// When the task first ran.
    pub start_time: usize,
    /// How long the task has run.
    pub total_time: usize,
    /// The task's memory areas.
    pub memory_set: MemorySet,
    /// The task's file descriptors.
    pub fd_table: Vec<Option<FileHandle>>,
}

/// A task as plain values.
pub struct TaskView {
    /// The task's state.
    pub task_status: TaskStatus,
    /// How many times the task made each system call.
    pub syscall_times: Seq<usize>,
    /// When the task first ran.
    pub start_time: usize,
    /// How long the task has run.
    pub total_time: usize,
    /// The task's memory areas.
    pub areas: Seq<MapArea>,
    /// The task's file descriptors.
    pub fd_table: Seq<Option<FileHandle>>,
}

impl View for TaskControlBlock {
    type V = TaskView;

    open spec fn view(&self) -> TaskView {
        TaskView {
            task_status: self.task_status,
            syscall_times: self.syscall_times@,
            start_time: self.start_time,
            total_time: self.total_time,
            areas: self.memory_set.areas@,
            fd_table: self.fd_table@,
        }
    }
}

/// Index of the first free descriptor of `table`, or -1.
pub open spec fn first_free_fd(table: Seq<Option<FileHandle>>) -> int
    decreases table.len(),
{
    if table.len() == 0 {
        -1
    } else {
        let r = first_free_fd(table.drop_last());
        if r >= 0 {
            r
        } else if table.last() is None {
            table.len() - 1
        } else {
            -1
        }
    }
}

/// What `first_free_fd` finds.
pub proof fn lemma_first_free_fd(table: Seq<Option<FileHandle>>)
    ensures
        ({
            let r = first_free_fd(table);
            &&& -1 <= r < table.len()
            &&& r >= 0 ==> table[r] is None
            &&& forall|j: int| 0 <= j < table.len() && (r < 0 || j < r) ==> table[j] is Some
        }),
    decreases table.len(),
{
    if table.len() > 0 {
        let p = table.drop_last();
        lemma_first_free_fd(p);
        assert forall|j: int| 0 <= j < p.len() implies #[trigger] table[j] == p[j] by {}
    }
}

/// The descriptor `alloc_fd` hands out: the first free one, or a new one at the end.
pub open spec fn alloc_fd_spec(table: Seq<Option<FileHandle>>) -> int {
    let r = first_free_fd(table);
    if r >= 0 {
        r
    } else {
        table.len() as int
    }
}

impl TaskControlBlock {
    /// A task ready to run in address space `memory_set`, whose descriptors 0, 1
    /// and 2 are the console input, output and error output.
    pub fn new(memory_set: MemorySet, task_cx: TaskContext) -> (t: TaskControlBlock)
        ensures
            t.task_status == TaskStatus::Ready,
            t.task_cx == task_cx,
            forall|i: int| 0 <= i < MAX_SYSCALL_NUM ==> t.syscall_times[i] == 0,
            t.start_time == 0,
            t.total_time == 0,
            t.memory_set.areas@ == memory_set.areas@,
            t.fd_table@ == seq![
                Some(FileHandle::Stdin(Stdin)),
                Some(FileHandle::Stdout(Stdout)),
                Some(FileHandle::Stdout(Stdout)),
            ],
    {
        let mut fd_table: Vec<Option<FileHandle>> = Vec::new();
        fd_table.push(Some(FileHandle::Stdin(Stdin)));
        fd_table.push(Some(FileHandle::Stdout(Stdout)));
        fd_table.push(Some(FileHandle::Stdout(Stdout)));
        let t = TaskControlBlock {
            task_status: TaskStatus::Ready,
            task_cx,
            syscall_times: [0usize; MAX_SYSCALL_NUM],
            start_time: 0,
            total_time: 0,
            memory_set,
            fd_table,
        };
        assert(t.fd_table@ =~= seq![
            Some(FileHandle::Stdin(Stdin)),
            Some(FileHandle::Stdout(Stdout)),
            Some(FileHandle::Stdout(Stdout)),
        ]);
        t
    }

    /// A free file descriptor: the first free one, or a new one at the end of the table.
    pub fn alloc_fd(&mut self) -> (fd: usize)
        ensures
            fd as int == alloc_fd_spec(old(self).fd_table@),
            final(self).fd_table@ == if first_free_fd(old(self).fd_table@) >= 0 {
                old(self).fd_table@
            } else {
                old(self).fd_table@.push(None)
            },
            fd < final(self).fd_table@.len(),
            final(self).fd_table@[fd as int] is None,
            final(self).task_status == old(self).task_status,
            final(self).syscall_times == old(self).syscall_times,
            final(self).memory_set == old(self).memory_set,
            final(self).task_cx == old(self).task_cx,
            final(self).start_time == old(self).start_time,
            final(self).total_time == old(self).total_time,
    {
        proof {
            lemma_first_free_fd(self.fd_table@);
        }
        let n = self.fd_table.len();
        let mut fd: usize = 0;
        while fd < n
            invariant
                n == self.fd_table@.len(),
                self.fd_table@ == old(self).fd_table@,
                fd <= n,
                forall|j: int| 0 <= j < fd ==> self.fd_table@[j] is Some,
                ({
                    let r = first_free_fd(self.fd_table@);
                    &&& -1 <= r < n
                    &&& r >= 0 ==> self.fd_table@[r] is None
                    &&& forall|j: int| 0 <= j < n && (r < 0 || j < r) ==> self.fd_table@[j] is Some
                }),
            decreases n - fd,
        {
            if self.fd_table[fd].is_none() {
                return fd;
            }
            fd = fd + 1;
        }
        self.fd_table.push(None);
        self.fd_table.len() - 1
    }
}

/// Task `t` with its state set to `s`.
pub open spec fn with_status(t: TaskControlBlock, s: TaskStatus) -> TaskControlBlock {
    TaskControlBlock { task_status: s, ..t }
}

/// Tasks `tasks` once task `i` is in state `s`.
pub open spec fn set_status(tasks: Seq<TaskControlBlock>, i: int, s: TaskStatus) -> Seq<TaskControlBlock> {
    tasks.update(i, with_status(tasks[i], s))
}

/// The first task, cyclically after task `current` (ending with `current`
/// itself), that is ready, searching from the `k`-th task after `current`.
pub open spec fn next_ready_from(tasks: Seq<TaskControlBlock>, current: int, k: int) -> Option<int>
    decreases tasks.len() + 1 - k,
{
    if k < 1 || k > tasks.len() {
        None
    } else if tasks[(current + k) % (tasks.len() as int)].task_status == TaskStatus::Ready {
        Some((current + k) % (tasks.len() as int))
    } else {
        next_ready_from(tasks, current, k + 1)
    }
}

/// The first task, cyclically after task `current` (ending with `current` itself), that is ready.
pub open spec fn next_ready(tasks: Seq<TaskControlBlock>, current: int) -> Option<int> {
    next_ready_from(tasks, current, 1)
}

/// The round-robin task manager: every application's task, and which one runs.
pub struct TaskManager {
    /// Number of applications.
    pub num_app: usize,
    /// One task per application.
    pub tasks: Vec<TaskControlBlock>,
    /// Index of the task that runs.
    pub current_task: usize,
}

impl TaskManager {
    /// The invariant every task manager keeps: one task per application, a
    /// current task in range, and no running task but the current one.
    pub open spec fn wf(&self) -> bool {
        &&& self.tasks@.len() == self.num_app
        &&& self.num_app < usize::MAX / 2
        &&& (self.num_app > 0 ==> self.current_task < self.num_app)
        &&& (self.num_app == 0 ==> self.current_task == 0)
        &&& forall|i: int|
            0 <= i < self.num_app && i != self.current_task ==> #[trigger] self.tasks@[i].task_status
                != TaskStatus::Running
    }

    /// A manager of `tasks`, with the first task current.
    pub fn new(tasks: Vec<TaskControlBlock>) -> (tm: TaskManager)
        requires
            tasks@.len() < usize::MAX / 2,
            forall|i: int| 1 <= i < tasks@.len() ==> #[trigger] tasks@[i].task_status != TaskStatus::Running,
        ensures
            tm.wf(),
            tm.num_app == tasks@.len(),
            tm.tasks@ == tasks@,
            tm.current_task == 0,
    {
        let num_app = tasks.len();
        TaskManager { num_app, tasks, current_task: 0 }
    }

    /// Marks the first task running; it becomes the task to switch to.
    pub fn run_first_task(&mut self)
        requires
            old(self).wf(),
            old(self).num_app > 0,
            old(self).current_task == 0,
        ensures
            final(self).wf(),
            final(self).num_app == old(self).num_app,
            final(self).current_task == 0,
            final(self).tasks@.len() == old(self).tasks@.len(),
            final(self).tasks@[0] == with_status(old(self).tasks@[0], TaskStatus::Running),
            forall|i: int| 1 <= i < final(self).tasks@.len() ==> #[trigger] final(self).tasks@[i] == old(self).tasks@[i],
    {
        let next_task = &mut self.tasks[0];
        next_task.task_status = TaskStatus::Running;
    }

    /// Marks the current task ready.
    pub fn mark_current_suspended(&mut self)
        requires
            old(self).wf(),
            old(self).num_app > 0,
        ensures
            final(self).wf(),
            final(self).num_app == old(self).num_app,
            final(self).current_task == old(self).current_task,
            final(self).tasks@.len() == old(self).tasks@.len(),
            final(self).tasks@[old(self).current_task as int] == with_status(old(self).tasks@[old(self).current_task as int], TaskStatus::Ready),
            forall|i: int| 0 <= i < final(self).tasks@.len() && i != old(self).current_task ==> #[trigger] final(self).tasks@[i] == old(self).tasks@[i],
    {
        let cur = self.current_task;
        self.tasks[cur].task_status = TaskStatus::Ready;
    }

    /// Marks the current task exited.
    pub fn mark_current_exited(&mut self)
        requires
            old(self).wf(),
            old(self).num_app > 0,
        ensures
            final(self).wf(),
            final(self).num_app == old(self).num_app,
            final(self).current_task == old(self).current_task,
            final(self).tasks@.len() == old(self).tasks@.len(),
            final(self).tasks@[old(self).current_task as int] == with_status(old(self).tasks@[old(self).current_task as int], TaskStatus::Exited),
            forall|i: int| 0 <= i < final(self).tasks@.len() && i != old(self).current_task ==> #[trigger] final(self).tasks@[i] == old(self).tasks@[i],
    {
        let cur = self.current_task;
        self.tasks[cur].task_status = TaskStatus::Exited;
    }

    /// The next ready task, cyclically after the current one (ending with the current one).
    pub fn find_next_task(&self) -> (r: Option<usize>)
        requires
            self.wf(),
        ensures
            r == match next_ready(self.tasks@, self.current_task as int) {
                Some(i) => Some(i as usize),
                None => None::<usize>,
            },
    {
        let n = self.num_app;
        let current = self.current_task;
        let mut id = current + 1;
        while id < current + n + 1
            invariant
                self.wf(),
                n == self.num_app,
                current == self.current_task,
                current + 1 <= id <= current + n + 1,
                next_ready(self.tasks@, current as int) == next_ready_from(self.tasks@, current as int, id - current),
            decreases current + n + 1 - id,
        {
            let idx = id % n;
            if self.tasks[idx].task_status == TaskStatus::Ready {
                return Some(idx);
            }
            id = id + 1;
        }
        None
    }

    /// Switches to the next ready task: it becomes the current task and runs.
    /// Returns the indices of the task left and the task entered, or `None`
    /// when no task is ready.
    fn run_next_task(&mut self) -> (r: Option<(usize, usize)>)
        requires
            old(self).wf(),
            old(self).num_app > 0,
            old(self).tasks@[old(self).current_task as int].task_status != TaskStatus::Running,
        ensures
            final(self).wf(),
            run_next_spec(*old(self), *final(self), r),
    {
        match self.find_next_task() {
            Some(next) => {
                proof {
                    lemma_next_ready(self.tasks@, self.current_task as int);
                }
                let current = self.current_task;
                self.tasks[next].task_status = TaskStatus::Running;
                self.current_task = next;
                Some((current, next))
            },
            None => None,
        }
    }
}

/// The effect of switching to the next ready task: `None` and nothing changed
/// when no task is ready; otherwise that task runs and becomes current, and
/// the pair names the task left and the task entered.
pub open spec fn run_next_spec(old_tm: TaskManager, new_tm: TaskManager, r: Option<(usize, usize)>) -> bool {
    &&& new_tm.num_app == old_tm.num_app
    &&& match next_ready(old_tm.tasks@, old_tm.current_task as int) {
        None => r is None && new_tm.tasks@ == old_tm.tasks@ && new_tm.current_task == old_tm.current_task,
        Some(next) => {
            &&& r == Some((old_tm.current_task, next as usize))
            &&& new_tm.current_task == next
            &&& new_tm.tasks@.len() == old_tm.tasks@.len()
            &&& new_tm.tasks@[next] == with_status(old_tm.tasks@[next], TaskStatus::Running)
            &&& forall|i: int| 0 <= i < new_tm.tasks@.len() && i != next ==> #[trigger] new_tm.tasks@[i] == old_tm.tasks@[i]
        },
    }
}

/// What `next_ready` finds: a ready task; and it finds one whenever some task is ready.
pub proof fn lemma_next_ready(tasks: Seq<TaskControlBlock>, current: int)
    requires
        0 <= current < tasks.len(),
    ensures
        next_ready(tasks, current) matches Some(i) ==> 0 <= i < tasks.len() && tasks[i].task_status == TaskStatus::Ready,
        next_ready(tasks, current) is None <==> forall|i: int| 0 <= i < tasks.len() ==> #[trigger] tasks[i].task_status != TaskStatus::Ready,
{
    lemma_next_ready_from(tasks, current, 1);
    if next_ready(tasks, current) is None {
        assert forall|i: int| 0 <= i < tasks.len() implies #[trigger] tasks[i].task_status != TaskStatus::Ready by {
            let n = tasks.len() as int;
            let k = if i > current { i - current } else { i + n - current };
            assert(1 <= k <= n);
            assert((current + k) % n == i) by {
                if i > current {
                    vstd::arithmetic::div_mod::lemma_small_mod(i as nat, n as nat);
                } else {
                    vstd::arithmetic::div_mod::lemma_mod_add_multiples_vanish(i, n);
                    vstd::arithmetic::div_mod::lemma_small_mod(i as nat, n as nat);
                }
            }
        }
    }
}

/// What `next_ready_from` finds, searching from the `k`-th task on.
proof fn lemma_next_ready_from(tasks: Seq<TaskControlBlock>, current: int, k: int)
    requires
        0 <= current < tasks.len(),
        1 <= k,
    ensures
        next_ready_from(tasks, current, k) matches Some(i) ==> 0 <= i < tasks.len() && tasks[i].task_status == TaskStatus::Ready,
        next_ready_from(tasks, current, k) is None ==> forall|j: int| k <= j <= tasks.len() ==> #[trigger] tasks[(current + j) % (tasks.len() as int)].task_status != TaskStatus::Ready,
    decreases tasks.len() + 1 - k,
{
    if k <= tasks.len() {
        lemma_next_ready_from(tasks, current, k + 1);
    }
}

/// The effect of suspending the current task and switching to the next ready
/// one: the current task becomes ready, a ready task is always found then (the
/// search ends with the current task itself), and it runs and becomes current.
pub open spec fn suspend_spec(old_tm: TaskManager, new_tm: TaskManager, r: (usize, usize)) -> bool {
    let c = old_tm.current_task as int;
    let mid = set_status(old_tm.tasks@, c, TaskStatus::Ready);
    &&& next_ready(mid, c) is Some
    &&& r == (old_tm.current_task, next_ready(mid, c).unwrap() as usize)
    &&& new_tm.num_app == old_tm.num_app
    &&& new_tm.current_task == r.1
    &&& new_tm.tasks@.len() == old_tm.tasks@.len()
    &&& new_tm.tasks@[r.1 as int] == with_status(mid[r.1 as int], TaskStatus::Running)
    &&& forall|i: int| 0 <= i < new_tm.tasks@.len() && i != r.1 ==> #[trigger] new_tm.tasks@[i] == mid[i]
}

/// Marks the current task ready and switches to the next ready task; returns
/// the indices of the task left and the task entered. Some task is always
/// ready then, so the switch always happens.
pub fn suspend_current_and_run_next(tm: &mut TaskManager) -> (r: (usize, usize))
    requires
        old(tm).wf(),
        old(tm).num_app > 0,
    ensures
        final(tm).wf(),
        suspend_spec(*old(tm), *final(tm), r),
{
    tm.mark_current_suspended();
    proof {
        let c = tm.current_task as int;
        assert(tm.tasks@ =~= set_status(old(tm).tasks@, c, TaskStatus::Ready));
        lemma_next_ready(tm.tasks@, c);
    }
    match tm.run_next_task() {
        Some(pair) => pair,
        None => {
            proof {
                assert(false);
            }
            (0, 0)
        },
    }
}

/// The effect of ending the current task and switching to the next ready one:
/// the current task becomes exited; when some task is ready the first one
/// (cyclically after the current task) runs and becomes current, and the pair
/// names the task left and the task entered; otherwise nothing else changes
/// and the result is `None` (all applications have completed).
pub open spec fn exit_spec(old_tm: TaskManager, new_tm: TaskManager, r: Option<(usize, usize)>) -> bool {
    let c = old_tm.current_task as int;
    let mid_tasks = set_status(old_tm.tasks@, c, TaskStatus::Exited);
    &&& new_tm.num_app == old_tm.num_app
    &&& match next_ready(mid_tasks, c) {
        None => r is None && new_tm.tasks@ == mid_tasks && new_tm.current_task == old_tm.current_task,
        Some(next) => {
            &&& r == Some((old_tm.current_task, next as usize))
            &&& new_tm.current_task == next
            &&& new_tm.tasks@.len() == mid_tasks.len()
            &&& new_tm.tasks@[next] == with_status(mid_tasks[next], TaskStatus::Running)
            &&& forall|i: int| 0 <= i < new_tm.tasks@.len() && i != next ==> #[trigger] new_tm.tasks@[i] == mid_tasks[i]
        },
    }
}

/// Marks the current task exited and switches to the next ready task; returns
/// the indices of the task left and the task entered, or `None` when no task
/// is ready any more.
pub fn exit_current_and_run_next(tm: &mut TaskManager) -> (r: Option<(usize, usize)>)
    requires
        old(tm).wf(),
        old(tm).num_app > 0,
    ensures
        final(tm).wf(),
        exit_spec(*old(tm), *final(tm), r),
{
    tm.mark_current_exited();
    proof {
        let c = tm.current_task as int;
        assert(tm.tasks@ =~= set_status(old(tm).tasks@, c, TaskStatus::Exited));
    }
    tm.run_next_task()
}


/// Ending or suspending the current task and switching changes task states
/// only: every descriptor table stays as it was.
pub proof fn lemma_switch_keeps_tables(old_tm: TaskManager, new_tm: TaskManager, s: TaskStatus, r: Option<(usize, usize)>)
    requires
        old_tm.wf(),
        old_tm.num_app > 0,
        s == TaskStatus::Exited ==> exit_spec(old_tm, new_tm, r),
        s != TaskStatus::Exited ==> (r matches Some(p) && suspend_spec(old_tm, new_tm, p)),
    ensures
        new_tm.tasks@.len() == old_tm.tasks@.len(),
        forall|k: int| 0 <= k < new_tm.tasks@.len() ==> #[trigger] new_tm.tasks@[k].fd_table@ == old_tm.tasks@[k].fd_table@,
{
    let c = old_tm.current_task as int;
    let st = if s == TaskStatus::Exited { TaskStatus::Exited } else { TaskStatus::Ready };
    let mid = set_status(old_tm.tasks@, c, st);
    assert forall|k: int| 0 <= k < new_tm.tasks@.len() implies #[trigger] new_tm.tasks@[k].fd_table@ == old_tm.tasks@[k].fd_table@ by {
        assert(mid[k].fd_table == old_tm.tasks@[k].fd_table);
    }
}

/// The area that covers pages `[l, r)` with rights `perm`.
pub open spec fn area_of(l: int, r: int, perm: MapPermission) -> MapArea {
    MapArea { vpn_range: VPNRange { l: VirtPageNum(l as usize), r: VirtPageNum(r as usize) }, map_perm: perm }
}

/// Only the current task changed, from `old_tm` to `new_tm`, and it became `t`.
pub open spec fn current_became(old_tm: TaskManager, new_tm: TaskManager, t: TaskView) -> bool {
    let c = old_tm.current_task as int;
    &&& new_tm.num_app == old_tm.num_app
    &&& new_tm.current_task == old_tm.current_task
    &&& new_tm.tasks@.len() == old_tm.tasks@.len()
    &&& new_tm.tasks@[c]@ == t
    &&& new_tm.tasks@[c].task_status == old_tm.tasks@[c].task_status
    &&& new_tm.tasks@[c].task_cx == old_tm.tasks@[c].task_cx
    &&& forall|i: int| 0 <= i < new_tm.tasks@.len() && i != c ==> #[trigger] new_tm.tasks@[i] == old_tm.tasks@[i]
}

/// The current task.
pub open spec fn current_view(tm: TaskManager) -> TaskView {
    tm.tasks@[tm.current_task as int]@
}

/// Maps the pages from `start_va` up to `end_va` into the current task with
/// rights `permission`. Returns 0, or -1 (and maps nothing) when one of those
/// pages is mapped already.
pub fn task_mmap(tm: &mut TaskManager, start_va: VirtAddr, end_va: VirtAddr, permission: MapPermission) -> (r: isize)
    requires
        old(tm).wf(),
        old(tm).num_app > 0,
        floor_spec(start_va.0 as int) <= ceil_spec(end_va.0 as int),
    ensures
        final(tm).wf(),
        ({
            let t = current_view(*old(tm));
            let l = floor_spec(start_va.0 as int);
            let h = ceil_spec(end_va.0 as int);
            if range_overlaps(t.areas, l, h) {
                r == -1 && current_became(*old(tm), *final(tm), t)
            } else {
                r == 0 && current_became(*old(tm), *final(tm), TaskView { areas: t.areas.push(area_of(l, h, permission)), ..t })
            }
        }),
{
    let vpn_range = VPNRange::new(start_va.floor(), end_va.ceil());
    let current = tm.current_task;
    let memory_set = &mut tm.tasks[current].memory_set;
    if memory_set.overlaps(vpn_range.get_start(), vpn_range.get_end()) {
        return -1;
    }
    memory_set.insert_framed_area(start_va, end_va, permission);
    proof {
        let t = current_view(*old(tm));
        let l = floor_spec(start_va.0 as int);
        let h = ceil_spec(end_va.0 as int);
        assert(tm.tasks@[current as int].memory_set.areas@ =~= t.areas.push(area_of(l, h, permission)));
    }
    0
}

/// Unmaps the area of the current task that covers exactly the pages from
/// `start_va` up to `end_va`. Returns 0, or -1 (and unmaps nothing) when no
/// area covers exactly those pages.
pub fn task_munmap(tm: &mut TaskManager, start_va: VirtAddr, end_va: VirtAddr) -> (r: isize)
    requires
        old(tm).wf(),
        old(tm).num_app > 0,
    ensures
        final(tm).wf(),
        ({
            let t = current_view(*old(tm));
            let l = floor_spec(start_va.0 as int);
            let h = ceil_spec(end_va.0 as int);
            if has_area_exactly(t.areas, l, h) {
                r == 0 && current_became(*old(tm), *final(tm), TaskView { areas: t.areas.remove(first_area_starting_at(t.areas, l)), ..t })
            } else {
                r == -1 && current_became(*old(tm), *final(tm), t)
            }
        }),
{
    let current = tm.current_task;
    let memory_set = &mut tm.tasks[current].memory_set;
    let start_vpn = start_va.floor();
    let end_vpn = end_va.ceil();
    let found_area = memory_set.has_area(start_vpn, end_vpn);
    if !found_area {
        return -1;
    }
    proof {
        crate::mm::lemma_first_area_starting_at(memory_set.areas@, start_vpn.0 as int);
    }
    let result = memory_set.remove_area_with_start_vpn(start_vpn);
    if result.is_some() {
        0
    } else {
        -1
    }
}

/// Whether page `vpn` is mapped in the current task.
pub fn task_have_mapped(tm: &TaskManager, vpn: VirtPageNum) -> (b: bool)
    requires
        tm.wf(),
        tm.num_app > 0,
    ensures
        b == exists|i: int| 0 <= i < current_view(*tm).areas.len() && #[trigger] area_contains(current_view(*tm).areas[i], vpn.0 as int),
{
    let current = tm.current_task;
    let r = tm.tasks[current].memory_set.translate(vpn);
    proof {
        assert(tm.tasks@[current as int].memory_set.areas@ == current_view(*tm).areas);
    }
    r.is_some()
}

/// Counts one use of system call `syscall_id` by the current task, when the id is below `MAX_SYSCALL_NUM`.
pub fn record_syscall(tm: &mut TaskManager, syscall_id: usize)
    requires
        old(tm).wf(),
        old(tm).num_app > 0,
        syscall_id < MAX_SYSCALL_NUM ==> current_view(*old(tm)).syscall_times[syscall_id as int] < usize::MAX,
    ensures
        final(tm).wf(),
        ({
            let t = current_view(*old(tm));
            if syscall_id < MAX_SYSCALL_NUM {
                current_became(*old(tm), *final(tm), TaskView {
                    syscall_times: t.syscall_times.update(syscall_id as int, (t.syscall_times[syscall_id as int] + 1) as usize),
                    ..t
                })
            } else {
                *final(tm) == *old(tm)
            }
        }),
{
    if syscall_id < MAX_SYSCALL_NUM {
        let current = tm.current_task;
        let times = tm.tasks[current].syscall_times[syscall_id];
        tm.tasks[current].syscall_times[syscall_id] = times + 1;
        proof {
            let t = current_view(*old(tm));
            assert(tm.tasks@[current as int].syscall_times@ =~= t.syscall_times.update(syscall_id as int, (t.syscall_times[syscall_id as int] + 1) as usize));
        }
    }
}

/// A closed descriptor is free again: the next descriptor handed out is no
/// higher than it, and the table does not grow.
pub proof fn law_close_frees_fd(table: Seq<Option<FileHandle>>, fd: int)
    requires
        0 <= fd < table.len(),
        table[fd] is Some,
    ensures
        first_free_fd(table.update(fd, None)) >= 0,
        alloc_fd_spec(table.update(fd, None)) <= fd,
{
    let u = table.update(fd, None);
    lemma_first_free_fd(u);
    assert(u[fd] is None);
}

/// Mapping pages `[l, h)` that no area holds, and then unmapping exactly that
/// range, gives back the areas as they were (when no area started at `l` before).
pub proof fn law_mmap_munmap_roundtrip(areas: Seq<MapArea>, l: int, h: int, perm: MapPermission)
    requires
        0 <= l < h <= usize::MAX,
        !range_overlaps(areas, l, h),
        forall|i: int| 0 <= i < areas.len() ==> #[trigger] areas[i].vpn_range.l.0 != l,
    ensures
        ({
            let pushed = areas.push(area_of(l, h, perm));
            &&& has_area_exactly(pushed, l, h)
            &&& pushed.remove(first_area_starting_at(pushed, l)) == areas
        }),
{
    let pushed = areas.push(area_of(l, h, perm));
    let n = areas.len() as int;
    assert(pushed[n].vpn_range.l.0 == l && pushed[n].vpn_range.r.0 == h);
    crate::mm::lemma_first_area_starting_at(pushed, l);
    let i = first_area_starting_at(pushed, l);
    if i >= 0 && i < n {
        assert(pushed[i] == areas[i]);
    }
    assert(i == n);
    assert(pushed.remove(n) =~= areas);
}

/// Once a task is exited and no task is ready, no switch happens; when some
/// task is ready, the switch goes to a ready task.
pub proof fn law_exit_switches_to_ready_task(tasks: Seq<TaskControlBlock>, current: int)
    requires
        0 <= current < tasks.len(),
    ensures
        ({
            let mid = set_status(tasks, current, TaskStatus::Exited);
            &&& next_ready(mid, current) is None <==> forall|i: int| 0 <= i < tasks.len() && i != current ==> #[trigger] tasks[i].task_status != TaskStatus::Ready
            &&& next_ready(mid, current) matches Some(i) ==> i != current && tasks[i].task_status == TaskStatus::Ready
        }),
{
    let mid = set_status(tasks, current, TaskStatus::Exited);
    lemma_next_ready(mid, current);
    assert forall|i: int| 0 <= i < tasks.len() && i != current implies #[trigger] mid[i] == tasks[i] by {}
    if next_ready(mid, current) is None {
        assert forall|i: int| 0 <= i < tasks.len() && i != current implies #[trigger] tasks[i].task_status != TaskStatus::Ready by {
            assert(mid[i] == tasks[i]);
        }
    } else {
        assert(mid[current].task_status == TaskStatus::Exited);
    }
    if forall|i: int| 0 <= i < tasks.len() && i != current ==> #[trigger] tasks[i].task_status != TaskStatus::Ready {
        assert forall|i: int| 0 <= i < mid.len() implies #[trigger] mid[i].task_status != TaskStatus::Ready by {
            if i != current {
                assert(mid[i] == tasks[i]);
            }
        }
    }
}

} // verus!
