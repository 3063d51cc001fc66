//! The task queue: an unbounded FIFO that can be closed once.
use std::collections::VecDeque;
use vstd::prelude::*;
use crate::error::PoolError;

verus! {

/// What the queue answers to a worker that asks for work.
#[derive(Debug)]
pub enum Claim<T> {
    /// The oldest pending task, now owned by the worker.
    Task(T),
    /// Nothing is pending and the queue is still open: the worker waits.
    Wait,
    /// The queue is closed and drained: the worker stops.
    EndOfStream,
}

/// The queue as a mathematical value.
pub struct QueueState<T> {
    /// The accepted tasks that no worker has claimed yet, oldest first.
    pub pending: Seq<T>,
    /// Whether the queue has been closed.
    pub closed: bool,
}

impl<T> QueueState<T> {
    /// The open queue that holds nothing.
    pub open spec fn empty() -> Self {
        QueueState { pending: Seq::empty(), closed: false }
    }

    /// The queue after `task` was offered to it: appended where the queue is
    /// open, refused without a trace where it is closed.
    pub open spec fn submit(self, task: T) -> Self {
        if self.closed {
            self
        } else {
            QueueState { pending: self.pending.push(task), closed: self.closed }
        }
    }

    /// What a claim answers.
    pub open spec fn offer(self) -> Claim<T> {
        if self.pending.len() > 0 {
            Claim::Task(self.pending[0])
        } else if self.closed {
            Claim::EndOfStream
        } else {
            Claim::Wait
        }
    }

    /// The queue after a claim: without its oldest task, if it had one.
    pub open spec fn claim(self) -> Self {
        if self.pending.len() > 0 {
            QueueState { pending: self.pending.drop_first(), closed: self.closed }
        } else {
            self
        }
    }

    /// The queue after it was closed: what is pending stays claimable.
    pub open spec fn close(self) -> Self {
        QueueState { pending: self.pending, closed: true }
    }

    /// Closing a closed queue changes nothing.
    pub proof fn lemma_close_idempotent(self)
        ensures
            self.close().close() == self.close(),
            self.closed ==> self.close() == self,
    {
    }
}

/// An unbounded FIFO of tasks with a one-way switch from open to closed.
pub struct TaskQueue<T> {
    items: VecDeque<T>,
    closed: bool,
}

impl<T> View for TaskQueue<T> {
    type V = QueueState<T>;

    closed spec fn view(&self) -> QueueState<T> {
        QueueState { pending: self.items@, closed: self.closed }
    }
}

impl<T> TaskQueue<T> {
    /// An open queue with nothing pending.
    pub fn new() -> (queue: Self)
        ensures
            queue@ == QueueState::<T>::empty(),
    {
        TaskQueue { items: VecDeque::new(), closed: false }
    }

    /// Appends `task` behind everything pending, or refuses it if the queue
    /// is closed. A refused task is dropped and leaves the queue unchanged.
    pub fn submit(&mut self, task: T) -> (outcome: Result<(), PoolError>)
        ensures
            final(self)@ == old(self)@.submit(task),
            outcome == if old(self)@.closed {
                Err::<(), PoolError>(PoolError::Dispatch)
            } else {
                Ok::<(), PoolError>(())
            },
    {
        if self.closed {
            Err(PoolError::Dispatch)
        } else {
            self.items.push_back(task);
            Ok(())
        }
    }

    /// Hands out the oldest pending task. Where nothing is pending, tells an
    /// open queue (`Wait`) from a closed one (`EndOfStream`).
    pub fn claim(&mut self) -> (got: Claim<T>)
        ensures
            got == old(self)@.offer(),
            final(self)@ == old(self)@.claim(),
    {
        match self.items.pop_front() {
            Some(task) => Claim::Task(task),
            None => {
                if self.closed {
                    Claim::EndOfStream
                } else {
                    Claim::Wait
                }
            },
        }
    }

    /// Closes the queue. Closing a closed queue changes nothing.
    pub fn close(&mut self)
        ensures
            final(self)@ == old(self)@.close(),
    {
        self.closed = true;
    }

    /// Whether the queue has been closed.
    pub fn is_closed(&self) -> (closed: bool)
        ensures
            closed == self@.closed,
    {
        self.closed
    }

    /// The number of pending tasks.
    pub fn len(&self) -> (n: usize)
        ensures
            n == self@.pending.len(),
    {
        self.items.len()
    }
}

} // verus!
