//! The worker pool: a fixed set of workers around one task queue.
use vstd::prelude::*;
use crate::error::PoolError;
use crate::queue::{Claim, QueueState, TaskQueue};
use crate::worker::{Worker, WorkerState};

verus! {

/// The pool as a mathematical value: its queue and the state of each worker,
/// worker `i` at index `i`.
pub struct PoolState<T> {
    pub queue: QueueState<T>,
    pub workers: Seq<WorkerState>,
}

impl<T> PoolState<T> {
    /// A fresh pool of `size` workers: all claiming, the queue open and empty.
    pub open spec fn init(size: nat) -> Self {
        PoolState {
            queue: QueueState::empty(),
            workers: Seq::new(size, |i: int| WorkerState::Claiming),
        }
    }

    /// Whether `id` numbers a worker of this pool.
    pub open spec fn has_worker(self, id: int) -> bool {
        0 <= id < self.workers.len()
    }

    /// Whether worker `id` is claiming.
    pub open spec fn is_claiming(self, id: int) -> bool {
        self.has_worker(id) && self.workers[id] == WorkerState::Claiming
    }

    /// Whether worker `id` is executing a task.
    pub open spec fn is_executing(self, id: int) -> bool {
        self.has_worker(id) && self.workers[id] == WorkerState::Executing
    }

    /// Whether worker `id` has terminated.
    pub open spec fn is_terminated(self, id: int) -> bool {
        self.has_worker(id) && self.workers[id] == WorkerState::Terminated
    }

    /// Whether the queue is closed and nothing is pending.
    pub open spec fn drained(self) -> bool {
        self.queue.closed && self.queue.pending.len() == 0
    }

    /// Whether every worker has terminated: the state in which each worker's
    /// thread can be joined without waiting.
    pub open spec fn shut_down(self) -> bool {
        forall|i: int| self.has_worker(i) ==> self.workers[i] == WorkerState::Terminated
    }

    /// What holds of every pool: it has a worker, and a worker has terminated
    /// only if the queue is closed and drained.
    pub open spec fn consistent(self) -> bool {
        &&& self.workers.len() >= 1
        &&& forall|i: int| self.is_terminated(i) ==> self.drained()
    }

    /// The pool after `task` was submitted.
    pub open spec fn submit(self, task: T) -> Self {
        PoolState { queue: self.queue.submit(task), workers: self.workers }
    }

    /// What worker `id` is handed when it claims. A worker that is not
    /// claiming is handed nothing.
    pub open spec fn offer(self, id: int) -> Claim<T> {
        if self.is_claiming(id) {
            self.queue.offer()
        } else {
            Claim::Wait
        }
    }

    /// The pool after worker `id` claimed. A worker that is not claiming
    /// leaves the pool as it is.
    pub open spec fn claim(self, id: int) -> Self {
        if self.is_claiming(id) {
            PoolState {
                queue: self.queue.claim(),
                workers: self.workers.update(
                    id,
                    self.workers[id].after_claim(self.queue.offer()),
                ),
            }
        } else {
            self
        }
    }

    /// The pool after the task of worker `id` returned. A worker that runs
    /// nothing leaves the pool as it is.
    pub open spec fn complete(self, id: int) -> Self {
        if self.is_executing(id) {
            PoolState {
                queue: self.queue,
                workers: self.workers.update(id, self.workers[id].after_complete()),
            }
        } else {
            self
        }
    }

    /// The pool after its queue was closed.
    pub open spec fn close(self) -> Self {
        PoolState { queue: self.queue.close(), workers: self.workers }
    }

    /// Closing a closed pool changes nothing.
    pub proof fn lemma_close_idempotent(self)
        ensures
            self.close().close() == self.close(),
            self.queue.closed ==> self.close() == self,
    {
    }

    /// A fresh pool with at least one worker is consistent.
    pub proof fn lemma_init_consistent(size: nat)
        requires
            size >= 1,
        ensures
            Self::init(size).consistent(),
    {
    }

    /// A submission keeps the pool consistent: once a worker has terminated
    /// the queue is closed, and nothing is added to it.
    pub proof fn lemma_submit_consistent(self, task: T)
        requires
            self.consistent(),
        ensures
            self.submit(task).consistent(),
    {
        let next = self.submit(task);
        assert forall|i: int| next.is_terminated(i) implies next.drained() by {
            assert(self.is_terminated(i));
        }
    }

    /// A claim keeps the pool consistent: a worker terminates only at a queue
    /// that is closed and drained.
    pub proof fn lemma_claim_consistent(self, id: int)
        requires
            self.consistent(),
        ensures
            self.claim(id).consistent(),
    {
        let next = self.claim(id);
        assert forall|i: int| next.is_terminated(i) implies next.drained() by {
            if self.is_claiming(id) && i != id {
                assert(self.is_terminated(i));
            } else if !self.is_claiming(id) {
                assert(self.is_terminated(i));
            }
        }
    }

    /// A completion keeps the pool consistent.
    pub proof fn lemma_complete_consistent(self, id: int)
        requires
            self.consistent(),
        ensures
            self.complete(id).consistent(),
    {
        let next = self.complete(id);
        assert forall|i: int| next.is_terminated(i) implies next.drained() by {
            assert(self.is_terminated(i));
        }
    }

    /// Closing keeps the pool consistent.
    pub proof fn lemma_close_consistent(self)
        requires
            self.consistent(),
        ensures
            self.close().consistent(),
    {
        let next = self.close();
        assert forall|i: int| next.is_terminated(i) implies next.drained() by {
            assert(self.is_terminated(i));
        }
    }
}

/// A fixed set of workers that share one task queue.
///
/// `T` is the task: the pool moves it from the submitter to one worker and
/// never looks inside.
pub struct ThreadPool<T> {
    workers: Vec<Worker>,
    queue: TaskQueue<T>,
}

impl<T> View for ThreadPool<T> {
    type V = PoolState<T>;

    closed spec fn view(&self) -> PoolState<T> {
        PoolState {
            queue: self.queue@,
            workers: Seq::new(self.workers@.len(), |i: int| self.workers@[i].state()),
        }
    }
}

impl<T> ThreadPool<T> {
    /// Whether worker `i` carries the number `i`, for each worker.
    pub closed spec fn numbered(&self) -> bool {
        forall|i: int| 0 <= i < self.workers@.len() ==> (#[trigger] self.workers@[i]).id() == i
    }

    /// The invariant of the pool, which `new` establishes and every method
    /// keeps.
    pub open spec fn wf(&self) -> bool {
        self.numbered() && self@.consistent()
    }

    /// A pool of `size` workers, all claiming, around an open and empty queue.
    /// A pool without workers is refused.
    pub fn new(size: usize) -> (made: Result<ThreadPool<T>, PoolError>)
        ensures
            size == 0 ==> made == Err::<ThreadPool<T>, PoolError>(PoolError::Configuration),
            size > 0 ==> made is Ok && made->Ok_0.wf() && made->Ok_0@ == PoolState::<T>::init(
                size as nat,
            ),
    {
        if size == 0 {
            return Err(PoolError::Configuration);
        }
        let mut workers: Vec<Worker> = Vec::with_capacity(size);
        let mut id: usize = 0;
        while id < size
            invariant
                id <= size,
                workers@.len() == id,
                forall|i: int|
                    0 <= i < id ==> (#[trigger] workers@[i]).id() == i && workers@[i].state()
                        == WorkerState::Claiming,
            decreases size - id,
        {
            workers.push(Worker::new(id));
            id += 1;
        }
        let pool = ThreadPool { workers, queue: TaskQueue::new() };
        proof {
            assert(pool@.workers =~= PoolState::<T>::init(size as nat).workers);
            PoolState::<T>::lemma_init_consistent(size as nat);
        }
        Ok(pool)
    }

    /// Submits `task`: queued behind what is pending, or refused with
    /// `Dispatch` once the queue is closed. A refused task is dropped: it
    /// never reaches a worker.
    pub fn execute(&mut self, task: T) -> (outcome: Result<(), PoolError>)
        requires
            old(self).wf(),
        ensures
            final(self).wf(),
            final(self)@ == old(self)@.submit(task),
            outcome == if old(self)@.queue.closed {
                Err::<(), PoolError>(PoolError::Dispatch)
            } else {
                Ok::<(), PoolError>(())
            },
    {
        proof {
            self@.lemma_submit_consistent(task);
        }
        self.queue.submit(task)
    }

    /// Worker `id` asks for work. It is handed the oldest pending task and
    /// goes to execute it; or it has to wait, the queue being open and empty;
    /// or it terminates, the queue being closed and drained.
    pub fn claim(&mut self, id: usize) -> (got: Claim<T>)
        requires
            old(self).wf(),
            old(self)@.is_claiming(id as int),
        ensures
            final(self).wf(),
            got == old(self)@.offer(id as int),
            final(self)@ == old(self)@.claim(id as int),
    {
        let mut worker = self.workers[id];
        let got = worker.claim(&mut self.queue);
        self.workers.set(id, worker);
        proof {
            assert(self@.workers =~= old(self)@.claim(id as int).workers);
            old(self)@.lemma_claim_consistent(id as int);
        }
        got
    }

    /// The task that worker `id` was executing has returned, with whatever
    /// outcome: the worker claims again.
    pub fn complete(&mut self, id: usize)
        requires
            old(self).wf(),
            old(self)@.is_executing(id as int),
        ensures
            final(self).wf(),
            final(self)@ == old(self)@.complete(id as int),
    {
        let mut worker = self.workers[id];
        worker.complete();
        self.workers.set(id, worker);
        proof {
            assert(self@.workers =~= old(self)@.complete(id as int).workers);
            old(self)@.lemma_complete_consistent(id as int);
        }
    }

    /// Begins the teardown: closes the queue. From here on every submission
    /// is refused, what is pending is still handed out, and each worker
    /// terminates at its first claim that finds nothing. Closing again
    /// changes nothing.
    pub fn close(&mut self)
        requires
            old(self).wf(),
        ensures
            final(self).wf(),
            final(self)@ == old(self)@.close(),
    {
        proof {
            self@.lemma_close_consistent();
        }
        self.queue.close();
    }

    /// The number of workers.
    pub fn size(&self) -> (n: usize)
        ensures
            n == self@.workers.len(),
    {
        self.workers.len()
    }

    /// The number of tasks that wait for a worker.
    pub fn pending(&self) -> (n: usize)
        ensures
            n == self@.queue.pending.len(),
    {
        self.queue.len()
    }

    /// Whether the queue has been closed.
    pub fn is_closed(&self) -> (closed: bool)
        ensures
            closed == self@.queue.closed,
    {
        self.queue.is_closed()
    }

    /// Where worker `id` stands, or `None` if the pool has no such worker.
    pub fn worker_state(&self, id: usize) -> (state: Option<WorkerState>)
        ensures
            state == if self@.has_worker(id as int) {
                Some(self@.workers[id as int])
            } else {
                None::<WorkerState>
            },
    {
        if id < self.workers.len() {
            Some(self.workers[id].state())
        } else {
            None
        }
    }

    /// Whether the teardown is complete: every worker has terminated.
    pub fn is_shut_down(&self) -> (done: bool)
        ensures
            done == self@.shut_down(),
    {
        let mut id: usize = 0;
        while id < self.workers.len()
            invariant
                id <= self.workers@.len(),
                forall|i: int| 0 <= i < id ==> self@.workers[i] == WorkerState::Terminated,
            decreases self.workers@.len() - id,
        {
            if self.workers[id].state() != WorkerState::Terminated {
                assert(self@.has_worker(id as int));
                return false;
            }
            id += 1;
        }
        true
    }
}

} // verus!
