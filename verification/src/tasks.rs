//! The queue of deferred background work.
//!
//! A task is a unit of work a callback enqueues to run off the UI thread; it
//! carries whatever lockable handle into shared state the caller chose. The
//! queue itself is plain FIFO state owned by the UI thread: enqueue order is
//! the only addressable property, there is no priority and no cancellation.
//! The worker that drains the queue — and the mutual-exclusion wrapper every
//! task must reach its state slice through — live outside this library.

use vstd::prelude::*;

verus! {

/// FIFO queue of pending background tasks.
pub struct TaskQueue<K> {
    tasks: Vec<K>,
}

impl<K> View for TaskQueue<K> {
    type V = Seq<K>;

    closed spec fn view(&self) -> Seq<K> {
        self.tasks@
    }
}

impl<K> TaskQueue<K> {
    pub fn new() -> (r: TaskQueue<K>)
        ensures
            r@.len() == 0,
    {
        TaskQueue { tasks: Vec::new() }
    }

    pub fn len(&self) -> (r: usize)
        ensures
            r == self@.len(),
    {
        self.tasks.len()
    }

    /// Appends a task at the tail; it runs after everything enqueued before.
    pub fn add_task(&mut self, task: K)
        ensures
            final(self)@ == old(self)@.push(task),
    {
        self.tasks.push(task);
    }

    /// Removes and returns the oldest pending task.
    pub fn pop_task(&mut self) -> (r: Option<K>)
        ensures
            match r {
                Some(t) => old(self)@.len() > 0 && t == old(self)@[0] && final(self)@ == old(
                    self,
                )@.subrange(1, old(self)@.len() as int),
                None => old(self)@.len() == 0 && *final(self) == *old(self),
            },
    {
        if self.tasks.len() == 0 {
            None
        } else {
            Some(self.tasks.remove(0))
        }
    }

    /// Removes every pending task, in enqueue order.
    pub fn drain(&mut self) -> (r: Vec<K>)
        ensures
            r@ == old(self)@,
            final(self)@.len() == 0,
    {
        let mut r: Vec<K> = Vec::new();
        while self.tasks.len() > 0
            invariant
                r@ + self@ == old(self)@,
            decreases self@.len(),
        {
            let t = self.tasks.remove(0);
            r.push(t);
        }
        proof {
            assert(r@ =~= old(self)@);
        }
        r
    }
}

} // verus!
