//! The task queue of a worker pool of fixed size.
//!
//! The pool's threads share one queue behind a lock. A submitter puts a
//! task in; an idle worker asks what to do next and is told to run the
//! oldest task, to wait, or to exit; a worker that ran a task says so. The
//! queue decides, the threads obey: so no more tasks run at once than the
//! pool has workers, tasks start in the order they came, and a worker is
//! told to exit only when the pool is closed and nothing is left to start.

use vstd::prelude::*;
use std::collections::VecDeque;

verus! {

/// What an idle worker does next.
pub enum WorkerStep<T> {
    /// Run the task handed out, then call `finish`.
    Run(T),
    /// Nothing to start: wait until the queue changes, then ask again.
    Wait,
    /// The pool is closed and nothing is left to start: leave.
    Exit,
}

/// The queue of a pool of a fixed number of workers.
pub struct WorkQueue<T> {
    workers: usize,
    pending: VecDeque<T>,
    running: usize,
    closed: bool,
    submitted: Ghost<Seq<T>>,
    started: Ghost<Seq<T>>,
    finished: Ghost<nat>,
}

impl<T> WorkQueue<T> {
    /// What holds of every queue: no more tasks run than there are workers;
    /// the tasks started so far and those pending are, in this order, the
    /// tasks submitted; and every task started is running or finished.
    pub closed spec fn well_formed(self) -> bool {
        &&& 0 < self.workers
        &&& self.running <= self.workers
        &&& self.submitted@ == self.started@ + self.pending@
        &&& self.started@.len() == self.finished@ + self.running
    }

    /// The number of workers of the pool.
    pub closed spec fn workers(self) -> nat {
        self.workers as nat
    }

    /// The tasks that wait to be started, oldest first.
    pub closed spec fn pending(self) -> Seq<T> {
        self.pending@
    }

    /// The number of tasks that run.
    pub closed spec fn running(self) -> nat {
        self.running as nat
    }

    /// Whether the pool is closed.
    pub closed spec fn closed(self) -> bool {
        self.closed
    }

    /// Every task that was accepted, in the order of submission.
    pub closed spec fn submitted(self) -> Seq<T> {
        self.submitted@
    }

    /// Every task that was handed to a worker, in the order of handing out.
    pub closed spec fn started(self) -> Seq<T> {
        self.started@
    }

    /// The number of tasks that were run to their end.
    pub closed spec fn finished(self) -> nat {
        self.finished@
    }

    /// What the operations of the queue keep true, and so what holds after
    /// any run of them on a new queue: at most as many tasks run as the
    /// pool has workers; no task is lost, doubled or overtaken on its way
    /// from submission to a worker; and every task handed to a worker runs
    /// or has run to its end. So once nothing is pending and nothing runs,
    /// all that was submitted is done.
    pub proof fn lemma_pool_invariant(self)
        requires
            self.well_formed(),
        ensures
            0 < self.workers(),
            self.running() <= self.workers(),
            self.started() + self.pending() == self.submitted(),
            self.finished() + self.running() == self.started().len(),
            self.pending().len() == 0 && self.running() == 0 ==> self.started()
                == self.submitted() && self.finished() == self.submitted().len(),
    {
    }

    /// Whether a worker that asks now is given a task.
    pub open spec fn can_start(self) -> bool {
        self.running() < self.workers() && self.pending().len() > 0
    }

    /// Makes the queue of a pool of `workers` workers: open, with nothing
    /// pending, running or done.
    pub fn new(workers: usize) -> (queue: Self)
        requires
            workers > 0,
        ensures
            queue.well_formed(),
            queue.workers() == workers,
            queue.pending() == Seq::<T>::empty(),
            queue.running() == 0,
            !queue.closed(),
            queue.submitted() == Seq::<T>::empty(),
            queue.started() == Seq::<T>::empty(),
            queue.finished() == 0,
    {
        WorkQueue {
            workers,
            pending: VecDeque::new(),
            running: 0,
            closed: false,
            submitted: Ghost(Seq::empty()),
            started: Ghost(Seq::empty()),
            finished: Ghost(0),
        }
    }

    /// Puts a task at the end of the queue. A closed pool takes no task: it
    /// hands the task back and stays as it was.
    pub fn submit(&mut self, task: T) -> (result: Result<(), T>)
        requires
            old(self).well_formed(),
        ensures
            final(self).well_formed(),
            final(self).workers() == old(self).workers(),
            final(self).running() == old(self).running(),
            final(self).closed() == old(self).closed(),
            final(self).started() == old(self).started(),
            final(self).finished() == old(self).finished(),
            match result {
                Ok(()) => {
                    &&& !old(self).closed()
                    &&& final(self).pending() == old(self).pending().push(task)
                    &&& final(self).submitted() == old(self).submitted().push(task)
                },
                Err(back) => {
                    &&& old(self).closed()
                    &&& back == task
                    &&& final(self).pending() == old(self).pending()
                    &&& final(self).submitted() == old(self).submitted()
                },
            },
    {
        if self.closed {
            return Err(task);
        }
        self.submitted = Ghost(self.submitted@.push(task));
        self.pending.push_back(task);
        Ok(())
    }

    /// Tells an idle worker what to do. While a worker is free and a task is
    /// pending, the oldest pending task is handed out and counts as
    /// running. Otherwise the worker exits, if the pool is closed and
    /// nothing is pending, or waits; the queue stays as it was.
    pub fn next(&mut self) -> (step: WorkerStep<T>)
        requires
            old(self).well_formed(),
        ensures
            final(self).well_formed(),
            final(self).workers() == old(self).workers(),
            final(self).closed() == old(self).closed(),
            final(self).submitted() == old(self).submitted(),
            final(self).finished() == old(self).finished(),
            final(self).running() <= final(self).workers(),
            match step {
                WorkerStep::Run(task) => {
                    &&& old(self).can_start()
                    &&& task == old(self).pending()[0]
                    &&& final(self).pending() == old(self).pending().drop_first()
                    &&& final(self).running() == old(self).running() + 1
                    &&& final(self).started() == old(self).started().push(task)
                },
                WorkerStep::Exit => {
                    &&& !old(self).can_start()
                    &&& old(self).closed()
                    &&& old(self).pending().len() == 0
                    &&& final(self).pending() == old(self).pending()
                    &&& final(self).running() == old(self).running()
                    &&& final(self).started() == old(self).started()
                },
                WorkerStep::Wait => {
                    &&& !old(self).can_start()
                    &&& !(old(self).closed() && old(self).pending().len() == 0)
                    &&& final(self).pending() == old(self).pending()
                    &&& final(self).running() == old(self).running()
                    &&& final(self).started() == old(self).started()
                },
            },
    {
        if self.running < self.workers {
            match self.pending.pop_front() {
                Some(task) => {
                    self.running = self.running + 1;
                    self.started = Ghost(self.started@.push(task));
                    assert(self.submitted@ =~= self.started@ + self.pending@);
                    return WorkerStep::Run(task);
                },
                None => {},
            }
        }
        if self.closed && self.pending.len() == 0 {
            WorkerStep::Exit
        } else {
            WorkerStep::Wait
        }
    }

    /// Takes note that a worker ran its task to the end. Where no task
    /// runs, nothing changes.
    pub fn finish(&mut self)
        requires
            old(self).well_formed(),
        ensures
            final(self).well_formed(),
            final(self).workers() == old(self).workers(),
            final(self).closed() == old(self).closed(),
            final(self).pending() == old(self).pending(),
            final(self).submitted() == old(self).submitted(),
            final(self).started() == old(self).started(),
            old(self).running() > 0 ==> final(self).running() == old(self).running() - 1
                && final(self).finished() == old(self).finished() + 1,
            old(self).running() == 0 ==> final(self).running() == 0 && final(self).finished()
                == old(self).finished(),
    {
        if self.running > 0 {
            self.running = self.running - 1;
            self.finished = Ghost(self.finished@ + 1);
        }
    }

    /// Closes the pool: from now on no task is accepted, and a worker that
    /// finds nothing pending is told to exit.
    pub fn close(&mut self)
        requires
            old(self).well_formed(),
        ensures
            final(self).well_formed(),
            final(self).closed(),
            final(self).workers() == old(self).workers(),
            final(self).pending() == old(self).pending(),
            final(self).running() == old(self).running(),
            final(self).submitted() == old(self).submitted(),
            final(self).started() == old(self).started(),
            final(self).finished() == old(self).finished(),
    {
        self.closed = true;
    }

    /// Returns the number of tasks that run: never more than the pool has
    /// workers.
    pub fn running_tasks(&self) -> (count: usize)
        requires
            self.well_formed(),
        ensures
            count == self.running(),
            count <= self.workers(),
    {
        self.running
    }

    /// Returns the number of tasks that wait to be started.
    pub fn pending_tasks(&self) -> (count: usize)
        ensures
            count == self.pending().len(),
    {
        self.pending.len()
    }

    /// Returns the number of workers of the pool.
    pub fn worker_count(&self) -> (count: usize)
        requires
            self.well_formed(),
        ensures
            count == self.workers(),
            count > 0,
    {
        self.workers
    }

    /// Whether the pool is closed.
    pub fn is_closed(&self) -> (closed: bool)
        ensures
            closed == self.closed(),
    {
        self.closed
    }

    /// Whether nothing is pending and nothing runs. Then every task that
    /// was submitted has been started, in the order of submission, and has
    /// been run to its end.
    pub fn is_drained(&self) -> (drained: bool)
        requires
            self.well_formed(),
        ensures
            drained == (self.pending().len() == 0 && self.running() == 0),
            drained ==> self.started() == self.submitted() && self.finished()
                == self.submitted().len(),
            self.started().len() + self.pending().len() == self.submitted().len(),
            self.finished() + self.running() == self.started().len(),
    {
        self.pending.len() == 0 && self.running == 0
    }
}

} // verus!
