//! The FIFO task manager: a queue of ready tasks.
use vstd::prelude::*;
use std::collections::VecDeque;
use std::sync::Arc;
use crate::task::TaskControlBlock;

verus! {

/// A first-in first-out queue of ready tasks.
pub struct TaskManager {
    ready_queue: VecDeque<Arc<TaskControlBlock>>,
}

impl View for TaskManager {
    type V = Seq<Arc<TaskControlBlock>>;

    closed spec fn view(&self) -> Seq<Arc<TaskControlBlock>> {
        self.ready_queue@
    }
}

impl TaskManager {
    /// An empty queue.
    pub fn new() -> (tm: TaskManager)
        ensures
            tm@ == Seq::<Arc<TaskControlBlock>>::empty(),
    {
        TaskManager { ready_queue: VecDeque::new() }
    }

    /// Puts `task` at the back of the queue.
    pub fn add(&mut self, task: Arc<TaskControlBlock>)
        ensures
            final(self)@ == old(self)@.push(task),
    {
        self.ready_queue.push_back(task);
    }

    /// Takes the task at the front of the queue, or `None` when the queue is empty.
    pub fn fetch(&mut self) -> (r: Option<Arc<TaskControlBlock>>)
        ensures
            old(self)@.len() == 0 ==> r is None && final(self)@ == old(self)@,
            old(self)@.len() > 0 ==> r == Some(old(self)@[0]) && final(self)@ == old(self)@.drop_first(),
    {
        self.ready_queue.pop_front()
    }
}

/// Tasks leave the queue in the order they entered it: fetching after adding
/// `task` to queue `q` takes `task` when `q` was empty, and otherwise takes the
/// front of `q`, leaving `task` behind the rest.
pub proof fn law_fifo_order(q: Seq<Arc<TaskControlBlock>>, task: Arc<TaskControlBlock>)
    ensures
        q.len() == 0 ==> q.push(task)[0] == task && q.push(task).drop_first() == q,
        q.len() > 0 ==> q.push(task)[0] == q[0] && q.push(task).drop_first() == q.drop_first().push(task),
{
    assert(q.len() == 0 ==> q.push(task).drop_first() =~= q);
    assert(q.len() > 0 ==> q.push(task).drop_first() =~= q.drop_first().push(task));
}

} // verus!
