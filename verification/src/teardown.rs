//! Teardown: why a closed pool comes to rest, and after how many steps.
//!
//! Once the queue is closed, every step that a worker takes brings the pool
//! closer to the state in which all workers have terminated. The distance is
//! a number that this module defines and that each step lowers by one, so a
//! teardown waits for a known number of steps and for nothing else: it ends
//! as soon as the tasks at hand and the pending ones have returned.
use vstd::prelude::*;
use crate::pool::PoolState;
use crate::queue::Claim;
use crate::trace::Event;
use crate::worker::WorkerState;

verus! {

impl WorkerState {
    /// The steps that a worker of a closed, empty pool takes before it has
    /// terminated: an executing worker completes and then claims, a claiming
    /// one claims.
    pub open spec fn steps_left(self) -> nat {
        match self {
            WorkerState::Executing => 2,
            WorkerState::Claiming => 1,
            WorkerState::Terminated => 0,
        }
    }
}

/// The sum of `steps_left` over `workers`.
pub open spec fn steps_of(workers: Seq<WorkerState>) -> nat
    decreases workers.len(),
{
    if workers.len() == 0 {
        0
    } else {
        steps_of(workers.drop_last()) + workers.last().steps_left()
    }
}

/// Replacing one worker's state changes the sum by the difference of the two
/// states.
pub proof fn lemma_steps_of_update(workers: Seq<WorkerState>, id: int, state: WorkerState)
    requires
        0 <= id < workers.len(),
    ensures
        steps_of(workers.update(id, state)) + workers[id].steps_left() == steps_of(workers)
            + state.steps_left(),
    decreases workers.len(),
{
    let updated = workers.update(id, state);
    if id == workers.len() - 1 {
        assert(updated.drop_last() =~= workers.drop_last());
    } else {
        assert(updated.drop_last() =~= workers.drop_last().update(id, state));
        lemma_steps_of_update(workers.drop_last(), id, state);
    }
}

/// The sum is zero exactly where every worker has terminated.
pub proof fn lemma_steps_of_zero(workers: Seq<WorkerState>)
    ensures
        steps_of(workers) == 0 <==> forall|i: int|
            0 <= i < workers.len() ==> workers[i] == WorkerState::Terminated,
    decreases workers.len(),
{
    if workers.len() > 0 {
        let front = workers.drop_last();
        lemma_steps_of_zero(front);
        if steps_of(workers) == 0 {
            assert forall|i: int| 0 <= i < workers.len() implies workers[i]
                == WorkerState::Terminated by {
                if i < workers.len() - 1 {
                    assert(front[i] == workers[i]);
                }
            }
        }
        if forall|i: int| 0 <= i < workers.len() ==> workers[i] == WorkerState::Terminated {
            assert forall|i: int| 0 <= i < front.len() implies front[i]
                == WorkerState::Terminated by {
                assert(front[i] == workers[i]);
            }
        }
    }
}

impl<T> PoolState<T> {
    /// The worker steps that a closed pool is away from being shut down: two
    /// for each pending task (it is claimed, it returns) and what each worker
    /// has left by itself.
    pub open spec fn remaining(self) -> nat {
        2 * self.queue.pending.len() + steps_of(self.workers)
    }

    /// Whether `event` is a step that a worker can take in this state: a
    /// claim by a claiming worker, or the return of the task of an executing
    /// one.
    pub open spec fn advances(self, event: Event<T>) -> bool {
        match event {
            Event::Claim(id) => self.is_claiming(id),
            Event::Complete(id) => self.is_executing(id),
            _ => false,
        }
    }

    /// Whether each of `events` is a step that a worker can take in the state
    /// that it meets.
    pub open spec fn drains(self, events: Seq<Event<T>>) -> bool
        decreases events.len(),
    {
        if events.len() == 0 {
            true
        } else {
            self.advances(events[0]) && self.step(events[0]).drains(events.drop_first())
        }
    }

    /// No worker waits at a closed queue: its claim is answered with a task
    /// or with the end of the stream.
    pub proof fn lemma_closed_never_waits(self, id: int)
        requires
            self.queue.closed,
            self.is_claiming(id),
        ensures
            self.offer(id) != Claim::<T>::Wait,
            self.offer(id) == Claim::<T>::EndOfStream <==> self.queue.pending.len() == 0,
    {
    }

    /// At a closed queue each step of a worker lowers the distance by one.
    pub proof fn lemma_drain_step(self, event: Event<T>)
        requires
            self.queue.closed,
            self.advances(event),
        ensures
            self.step(event).queue.closed,
            self.step(event).remaining() + 1 == self.remaining(),
    {
        match event {
            Event::Claim(id) => {
                lemma_steps_of_update(
                    self.workers,
                    id,
                    self.workers[id].after_claim(self.queue.offer()),
                );
            },
            Event::Complete(id) => {
                lemma_steps_of_update(self.workers, id, self.workers[id].after_complete());
            },
            _ => {},
        }
    }

    /// A teardown is bounded. From a closed pool, workers take as many steps
    /// as the distance says and no more: after `events` the distance has
    /// gone down by their number.
    pub proof fn lemma_drain_bounded(self, events: Seq<Event<T>>)
        requires
            self.queue.closed,
            self.drains(events),
        ensures
            self.run(events).remaining() + events.len() == self.remaining(),
        decreases events.len(),
    {
        if events.len() > 0 {
            self.lemma_drain_step(events[0]);
            self.step(events[0]).lemma_drain_bounded(events.drop_first());
        }
    }

    /// A pool is shut down exactly where no step remains.
    pub proof fn lemma_shut_down_iff_nothing_remains(self)
        requires
            self.consistent(),
        ensures
            self.shut_down() <==> self.remaining() == 0,
    {
        lemma_steps_of_zero(self.workers);
        if self.shut_down() {
            assert(self.is_terminated(0));
            assert forall|i: int| 0 <= i < self.workers.len() implies self.workers[i]
                == WorkerState::Terminated by {
                assert(self.has_worker(i));
            }
        }
        if self.remaining() == 0 {
            assert forall|i: int| self.has_worker(i) implies self.workers[i]
                == WorkerState::Terminated by {}
        }
    }

    /// A teardown does not get stuck. In a closed pool that is not shut down
    /// yet some worker can take a step, and the step brings the pool closer
    /// to being shut down: the worker claims, or its task returns.
    pub proof fn lemma_drain_continues(self) -> (event: Event<T>)
        requires
            self.queue.closed,
            !self.shut_down(),
        ensures
            self.advances(event),
            self.step(event).remaining() + 1 == self.remaining(),
    {
        let id = choose|i: int| self.has_worker(i) && self.workers[i] != WorkerState::Terminated;
        let event = if self.workers[id] == WorkerState::Claiming {
            Event::<T>::Claim(id)
        } else {
            Event::<T>::Complete(id)
        };
        self.lemma_drain_step(event);
        event
    }

    /// A pool that is torn down right after it was made, with `size` workers
    /// and no task, is `size` steps away from being shut down. Each of these
    /// steps is the claim of one worker, answered at once with the end of the
    /// stream, and the pool is shut down exactly when all of them are taken.
    pub proof fn lemma_idle_teardown(size: nat, events: Seq<Event<T>>)
        requires
            size >= 1,
            Self::init(size).close().drains(events),
        ensures
            Self::init(size).close().remaining() == size,
            forall|id: int|
                0 <= id < size ==> Self::init(size).close().offer(id)
                    == Claim::<T>::EndOfStream,
            events.len() <= size,
            Self::init(size).close().run(events).shut_down() <==> events.len() == size,
    {
        let start = Self::init(size).close();
        Self::lemma_steps_of_init(size);
        Self::lemma_init_consistent(size);
        Self::init(size).lemma_close_consistent();
        start.lemma_drain_bounded(events);
        start.lemma_run_consistent(events);
        start.run(events).lemma_shut_down_iff_nothing_remains();
    }

    /// The workers of a fresh pool have one step left each.
    pub proof fn lemma_steps_of_init(size: nat)
        ensures
            steps_of(Self::init(size).workers) == size,
        decreases size,
    {
        if size > 0 {
            Self::lemma_steps_of_init((size - 1) as nat);
            assert(Self::init(size).workers.drop_last() =~= Self::init(
                (size - 1) as nat,
            ).workers);
        }
    }
}

} // verus!
