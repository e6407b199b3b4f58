//! The per-window task queue: runs of one window start one at a time, in the
//! order they were submitted.
use vstd::prelude::*;

verus! {

/// A task for a window's worker.
pub enum WindowTask<T> {
    Script(T),
    Close,
}

/// Why a task was not accepted; the task is handed back.
pub enum QueueRefusal<T> {
    Full(T),
    Closed(T),
}

/// `a` is a prefix of `b`.
pub open spec fn is_prefix_of<T>(a: Seq<T>, b: Seq<T>) -> bool {
    a.len() <= b.len() && b.subrange(0, a.len() as int) == a
}

/// The bounded queue of one window's worker.
pub struct TaskQueue<T> {
    pending: Vec<T>,
    busy: bool,
    closed: bool,
    capacity: usize,
    submitted: Ghost<Seq<T>>,
    started: Ghost<Seq<T>>,
}

impl<T> TaskQueue<T> {
    /// The tasks accepted so far, in order.
    pub closed spec fn submitted(&self) -> Seq<T> {
        self.submitted@
    }

    /// The tasks started so far, in order; the last one runs while `busy`.
    pub closed spec fn started(&self) -> Seq<T> {
        self.started@
    }

    /// The tasks waiting, in order.
    pub closed spec fn pending(&self) -> Seq<T> {
        self.pending@
    }

    /// A task is running.
    pub closed spec fn busy(&self) -> bool {
        self.busy
    }

    /// The queue takes no more tasks.
    pub closed spec fn closed(&self) -> bool {
        self.closed
    }

    /// How many tasks may wait at once.
    pub closed spec fn capacity(&self) -> nat {
        self.capacity as nat
    }

    /// What was started, then what waits, is what was submitted, in order;
    /// only closing drops waiting tasks.
    pub open spec fn wf(&self) -> bool {
        &&& is_prefix_of(self.started() + self.pending(), self.submitted())
        &&& !self.closed() ==> self.started() + self.pending() == self.submitted()
        &&& self.closed() ==> self.pending().len() == 0
        &&& self.pending().len() <= self.capacity()
        &&& self.busy() ==> self.started().len() > 0
    }

    /// An open, idle queue for up to `capacity` waiting tasks.
    pub fn new(capacity: usize) -> (r: TaskQueue<T>)
        ensures
            r.wf(),
            r.submitted().len() == 0,
            !r.busy(),
            !r.closed(),
            r.capacity() == capacity,
    {
        let q = TaskQueue {
            pending: Vec::new(),
            busy: false,
            closed: false,
            capacity,
            submitted: Ghost(Seq::empty()),
            started: Ghost(Seq::empty()),
        };
        assert(q.started@ + q.pending@ =~= Seq::<T>::empty());
        assert(q.submitted@.subrange(0, 0) =~= Seq::<T>::empty());
        q
    }

    /// Accepts `task` behind those already waiting, unless the queue is closed
    /// or full.
    pub fn submit(&mut self, task: T) -> (r: Result<(), QueueRefusal<T>>)
        requires
            old(self).wf(),
        ensures
            final(self).wf(),
            final(self).busy() == old(self).busy(),
            final(self).closed() == old(self).closed(),
            final(self).started() == old(self).started(),
            old(self).closed() ==> r == Err::<(), QueueRefusal<T>>(QueueRefusal::Closed(task))
                && final(self).submitted() == old(self).submitted(),
            !old(self).closed() && old(self).pending().len() >= old(self).capacity() ==> r == Err::<
                (),
                QueueRefusal<T>,
            >(QueueRefusal::Full(task)) && final(self).submitted() == old(self).submitted(),
            !old(self).closed() && old(self).pending().len() < old(self).capacity() ==> r is Ok
                && final(self).submitted() == old(self).submitted().push(task)
                && final(self).pending() == old(self).pending().push(task),
    {
        if self.closed {
            return Err(QueueRefusal::Closed(task));
        }
        if self.pending.len() >= self.capacity {
            return Err(QueueRefusal::Full(task));
        }
        proof {
            self.submitted@ = self.submitted@.push(task);
        }
        self.pending.push(task);
        assert(self.started@ + self.pending@ =~= (old(self).started@ + old(self).pending@).push(
            task,
        ));
        assert(self.submitted@.subrange(0, self.submitted@.len() as int) =~= self.submitted@);
        Ok(())
    }

    /// Starts the oldest waiting task, unless one is running or none waits.
    pub fn start_next(&mut self) -> (r: Option<T>)
        requires
            old(self).wf(),
        ensures
            final(self).wf(),
            final(self).submitted() == old(self).submitted(),
            final(self).closed() == old(self).closed(),
            old(self).busy() || old(self).pending().len() == 0 ==> r is None && *final(self)
                == *old(self),
            !old(self).busy() && old(self).pending().len() > 0 ==> {
                &&& r == Some(old(self).pending()[0])
                &&& r == Some(old(self).submitted()[old(self).started().len() as int])
                &&& final(self).started() == old(self).started().push(old(self).pending()[0])
                &&& final(self).pending() == old(self).pending().drop_first()
                &&& final(self).busy()
            },
    {
        if self.busy || self.pending.len() == 0 {
            return None;
        }
        let ghost begun = self.started@;
        let ghost waiting = self.pending@;
        assert((begun + waiting)[begun.len() as int] == waiting[0]);
        assert(self.submitted@.subrange(0, (begun + waiting).len() as int)[begun.len() as int] == waiting[0]);
        let t = self.pending.remove(0);
        proof {
            self.started@ = begun.push(t);
        }
        self.busy = true;
        assert(self.started@ + self.pending@ =~= begun + waiting);
        Some(t)
    }

    /// The running task has ended.
    pub fn finish(&mut self)
        requires
            old(self).wf(),
        ensures
            final(self).wf(),
            !final(self).busy(),
            final(self).submitted() == old(self).submitted(),
            final(self).started() == old(self).started(),
            final(self).pending() == old(self).pending(),
            final(self).closed() == old(self).closed(),
    {
        self.busy = false;
    }

    /// Closes the queue: no task is accepted any more and none that waits is started.
    pub fn close(&mut self)
        requires
            old(self).wf(),
        ensures
            final(self).wf(),
            final(self).closed(),
            final(self).pending().len() == 0,
            final(self).submitted() == old(self).submitted(),
            final(self).started() == old(self).started(),
            final(self).busy() == old(self).busy(),
    {
        let ghost both = self.started@ + self.pending@;
        self.closed = true;
        self.pending = Vec::new();
        assert(self.started@ + self.pending@ =~= self.started@);
        assert(both.subrange(0, self.started@.len() as int) =~= self.started@);
        assert(self.submitted@.subrange(0, self.started@.len() as int) =~= both.subrange(
            0,
            self.started@.len() as int,
        ));
    }

    /// What the worker does with a task it receives: a script task is queued
    /// (or refused), `Close` closes the queue.
    pub fn accept(&mut self, task: WindowTask<T>) -> (r: Result<(), QueueRefusal<T>>)
        requires
            old(self).wf(),
        ensures
            final(self).wf(),
            final(self).started() == old(self).started(),
            final(self).busy() == old(self).busy(),
            match task {
                WindowTask::Script(t) => {
                    &&& final(self).closed() == old(self).closed()
                    &&& old(self).closed() ==> r == Err::<(), QueueRefusal<T>>(
                        QueueRefusal::Closed(t),
                    ) && final(self).submitted() == old(self).submitted()
                    &&& !old(self).closed() && old(self).pending().len() >= old(self).capacity()
                        ==> r == Err::<(), QueueRefusal<T>>(QueueRefusal::Full(t))
                        && final(self).submitted() == old(self).submitted()
                    &&& !old(self).closed() && old(self).pending().len() < old(self).capacity()
                        ==> r is Ok && final(self).submitted() == old(self).submitted().push(t)
                        && final(self).pending() == old(self).pending().push(t)
                },
                WindowTask::Close => {
                    &&& r is Ok
                    &&& final(self).closed()
                    &&& final(self).pending().len() == 0
                    &&& final(self).submitted() == old(self).submitted()
                },
            },
    {
        match task {
            WindowTask::Script(t) => self.submit(t),
            WindowTask::Close => {
                self.close();
                Ok(())
            },
        }
    }
}

/// Runs of one window start in the order they were submitted: whatever was
/// started is a prefix of what was submitted, and at most one runs at a time.
pub proof fn lemma_runs_follow_submission_order<T>(q: TaskQueue<T>)
    requires
        q.wf(),
    ensures
        is_prefix_of(q.started(), q.submitted()),
{
    let both = q.started() + q.pending();
    assert(both.subrange(0, q.started().len() as int) =~= q.started());
    assert(q.submitted().subrange(0, q.started().len() as int) =~= both.subrange(
        0,
        q.started().len() as int,
    ));
}

} // verus!
