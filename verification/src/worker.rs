//! A worker: an identity and the state of its claim loop.
use vstd::prelude::*;
use crate::queue::{Claim, TaskQueue};

verus! {

/// Where a worker stands in its claim loop.
#[derive(Clone, Copy, Debug, PartialEq, Eq, Structural)]
pub enum WorkerState {
    /// Asking the queue for a task, or waiting for one.
    Claiming,
    /// Running a claimed task, outside the pool.
    Executing,
    /// Stopped for good, after the queue was found closed and drained.
    Terminated,
}

impl WorkerState {
    /// The state of a claiming worker after the queue answered `got`. A worker
    /// in another state does not claim and stays as it is.
    pub open spec fn after_claim<T>(self, got: Claim<T>) -> WorkerState {
        match (self, got) {
            (WorkerState::Claiming, Claim::Task(_)) => WorkerState::Executing,
            (WorkerState::Claiming, Claim::EndOfStream) => WorkerState::Terminated,
            _ => self,
        }
    }

    /// The state after the task at hand returned, however it ended: back to
    /// claiming. A worker that runs nothing stays as it is.
    pub open spec fn after_complete(self) -> WorkerState {
        match self {
            WorkerState::Executing => WorkerState::Claiming,
            _ => self,
        }
    }
}

/// The pool's record of one worker.
#[derive(Clone, Copy, Debug)]
pub struct Worker {
    id: usize,
    state: WorkerState,
}

impl Worker {
    /// The worker's number within its pool.
    pub closed spec fn spec_id(&self) -> usize {
        self.id
    }

    /// Where the worker stands.
    pub closed spec fn spec_state(&self) -> WorkerState {
        self.state
    }

    /// A worker numbered `id` that is about to claim its first task.
    pub fn new(id: usize) -> (worker: Worker)
        ensures
            worker.id() == id,
            worker.state() == WorkerState::Claiming,
    {
        Worker { id, state: WorkerState::Claiming }
    }

    /// The worker's number within its pool.
    #[verifier::when_used_as_spec(spec_id)]
    pub fn id(&self) -> (id: usize)
        ensures
            id == self.spec_id(),
    {
        self.id
    }

    /// Where the worker stands.
    #[verifier::when_used_as_spec(spec_state)]
    pub fn state(&self) -> (state: WorkerState)
        ensures
            state == self.spec_state(),
    {
        self.state
    }

    /// One turn of the claim loop: asks `queue` for work and moves on by its
    /// answer. With a task the worker goes to execute it, at the end of the
    /// stream it terminates, and where it has to wait it keeps claiming.
    pub fn claim<T>(&mut self, queue: &mut TaskQueue<T>) -> (got: Claim<T>)
        requires
            old(self).state() == WorkerState::Claiming,
        ensures
            got == old(queue)@.offer(),
            final(queue)@ == old(queue)@.claim(),
            final(self).id() == old(self).id(),
            final(self).state() == old(self).state().after_claim(got),
    {
        let got = queue.claim();
        match &got {
            Claim::Task(_) => {
                self.state = WorkerState::Executing;
            },
            Claim::EndOfStream => {
                self.state = WorkerState::Terminated;
            },
            Claim::Wait => {},
        }
        got
    }

    /// The task at hand has returned, with whatever outcome: the worker goes
    /// back to claiming.
    pub fn complete(&mut self)
        requires
            old(self).state() == WorkerState::Executing,
        ensures
            final(self).id() == old(self).id(),
            final(self).state() == old(self).state().after_complete(),
    {
        self.state = WorkerState::Claiming;
    }
}

} // verus!
