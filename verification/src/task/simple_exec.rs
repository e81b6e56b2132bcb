//! A minimal first-in-first-out executor: spawned tasks wait in a queue in
//! spawn order.  It predates the wake-driven executor and has no notion of
//! readiness.
use crate::task::Task;
use std::collections::VecDeque;
use vstd::prelude::*;

verus! {

/// The queue-backed executor.
pub struct SimpleExec {
    task_queue: VecDeque<Task>,
}

impl SimpleExec {
    /// The queued tasks, in spawn order.
    pub closed spec fn queued(self) -> Seq<Task> {
        self.task_queue@
    }

    /// An executor with no tasks.
    pub fn new() -> (r: SimpleExec)
        ensures
            r.queued().len() == 0,
    {
        SimpleExec { task_queue: VecDeque::new() }
    }

    /// Number of queued tasks.
    pub fn task_count(&self) -> (r: usize)
        ensures
            r == self.queued().len(),
    {
        self.task_queue.len()
    }

    /// Appends a task at the back of the queue.
    pub fn spawn(&mut self, task: Task)
        ensures
            final(self).queued() == old(self).queued().push(task),
    {
        self.task_queue.push_back(task);
    }
}

} // verus!
