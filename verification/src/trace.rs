//! Runs of the pool: what holds after any sequence of events.
//!
//! A run starts in some state of the pool and applies events one by one: a
//! submission, a claim by a worker, the completion of a worker's task, or the
//! closing of the queue. An event that cannot happen in the state it meets (a
//! claim by a worker that is executing, say) changes nothing. The laws below
//! hold of every run, so of every interleaving of submitters and workers.
use vstd::prelude::*;
use crate::pool::PoolState;
use crate::queue::Claim;

verus! {

/// One thing that happens to a pool.
pub enum Event<T> {
    /// A caller submits a task.
    Submit(T),
    /// The worker of this number asks for work.
    Claim(int),
    /// The task of the worker of this number returns.
    Complete(int),
    /// The queue is closed.
    Close,
}

impl<T> PoolState<T> {
    /// The pool after `event`.
    pub open spec fn step(self, event: Event<T>) -> Self {
        match event {
            Event::Submit(task) => self.submit(task),
            Event::Claim(id) => self.claim(id),
            Event::Complete(id) => self.complete(id),
            Event::Close => self.close(),
        }
    }

    /// The tasks that `event` adds to the queue: the submitted task, if the
    /// queue is open.
    pub open spec fn accepts(self, event: Event<T>) -> Seq<T> {
        match event {
            Event::Submit(task) => if self.queue.closed {
                Seq::empty()
            } else {
                seq![task]
            },
            _ => Seq::empty(),
        }
    }

    /// The tasks that `event` hands to a worker: the oldest pending one, if
    /// the event is a claim by a claiming worker and a task is pending.
    pub open spec fn delivers(self, event: Event<T>) -> Seq<T> {
        match event {
            Event::Claim(id) => match self.offer(id) {
                Claim::Task(task) => seq![task],
                _ => Seq::empty(),
            },
            _ => Seq::empty(),
        }
    }

    /// The pool after `events`, first to last.
    pub open spec fn run(self, events: Seq<Event<T>>) -> Self
        decreases events.len(),
    {
        if events.len() == 0 {
            self
        } else {
            self.step(events[0]).run(events.drop_first())
        }
    }

    /// The tasks accepted during `events`, in the order of their submission.
    pub open spec fn accepted(self, events: Seq<Event<T>>) -> Seq<T>
        decreases events.len(),
    {
        if events.len() == 0 {
            Seq::empty()
        } else {
            self.accepts(events[0]) + self.step(events[0]).accepted(events.drop_first())
        }
    }

    /// The tasks handed to workers during `events`, in the order of the
    /// claims.
    pub open spec fn delivered(self, events: Seq<Event<T>>) -> Seq<T>
        decreases events.len(),
    {
        if events.len() == 0 {
            Seq::empty()
        } else {
            self.delivers(events[0]) + self.step(events[0]).delivered(events.drop_first())
        }
    }

    /// Every event keeps the pool consistent.
    pub proof fn lemma_step_consistent(self, event: Event<T>)
        requires
            self.consistent(),
        ensures
            self.step(event).consistent(),
    {
        match event {
            Event::Submit(task) => self.lemma_submit_consistent(task),
            Event::Claim(id) => self.lemma_claim_consistent(id),
            Event::Complete(id) => self.lemma_complete_consistent(id),
            Event::Close => self.lemma_close_consistent(),
        }
    }

    /// Every run keeps the pool consistent, and the number of its workers.
    pub proof fn lemma_run_consistent(self, events: Seq<Event<T>>)
        requires
            self.consistent(),
        ensures
            self.run(events).consistent(),
            self.run(events).workers.len() == self.workers.len(),
        decreases events.len(),
    {
        if events.len() > 0 {
            self.lemma_step_consistent(events[0]);
            self.step(events[0]).lemma_run_consistent(events.drop_first());
        }
    }

    /// One event moves tasks through the queue without losing or copying
    /// one: what was pending and what the event adds is what the event hands
    /// out and what is pending afterwards, in this order.
    pub proof fn lemma_step_conserves(self, event: Event<T>)
        ensures
            self.queue.pending + self.accepts(event) =~= self.delivers(event) + self.step(
                event,
            ).queue.pending,
    {
    }

    /// No task is lost and none is handed out twice. After any run, the tasks
    /// that were pending at its start followed by those accepted during it
    /// are the tasks handed to workers during it followed by those still
    /// pending, task by task and in the same order.
    pub proof fn lemma_exactly_once(self, events: Seq<Event<T>>)
        ensures
            self.queue.pending + self.accepted(events) =~= self.delivered(events) + self.run(
                events,
            ).queue.pending,
        decreases events.len(),
    {
        if events.len() > 0 {
            let next = self.step(events[0]);
            let rest = events.drop_first();
            self.lemma_step_conserves(events[0]);
            next.lemma_exactly_once(rest);
            assert(self.queue.pending + self.accepted(events) =~= (self.queue.pending
                + self.accepts(events[0])) + next.accepted(rest));
            assert(self.delivered(events) + self.run(events).queue.pending =~= self.delivers(
                events[0],
            ) + (next.delivered(rest) + next.run(rest).queue.pending));
            assert((self.queue.pending + self.accepts(events[0])) + next.accepted(rest)
                =~= self.delivers(events[0]) + (next.queue.pending + next.accepted(rest)));
        }
    }

    /// Once every worker has terminated nothing is left behind: the tasks
    /// that were pending when the run began and those accepted during it have
    /// all been handed out, each once, in the order in which they came.
    pub proof fn lemma_shut_down_delivers_all(self, events: Seq<Event<T>>)
        requires
            self.consistent(),
            self.run(events).shut_down(),
        ensures
            self.delivered(events) == self.queue.pending + self.accepted(events),
    {
        let end = self.run(events);
        self.lemma_run_consistent(events);
        self.lemma_exactly_once(events);
        assert(end.is_terminated(0));
        assert(self.delivered(events) + end.queue.pending =~= self.delivered(events));
    }

    /// A pool that was run from its start until every worker had terminated
    /// has handed out exactly the tasks it accepted, each once, in the order
    /// of their submission.
    pub proof fn lemma_fresh_pool_delivers_all(size: nat, events: Seq<Event<T>>)
        requires
            size >= 1,
            Self::init(size).run(events).shut_down(),
        ensures
            Self::init(size).delivered(events) == Self::init(size).accepted(events),
    {
        let start = Self::init(size);
        Self::lemma_init_consistent(size);
        start.lemma_shut_down_delivers_all(events);
        assert(start.queue.pending + start.accepted(events) =~= start.accepted(events));
    }

    /// Closing is final. After the queue was closed it stays closed through
    /// every run, no submission is accepted any more, and what is handed out
    /// comes from the tasks that were pending when the run began.
    pub proof fn lemma_closed_is_final(self, events: Seq<Event<T>>)
        requires
            self.queue.closed,
        ensures
            self.run(events).queue.closed,
            self.accepted(events) == Seq::<T>::empty(),
            self.queue.pending == self.delivered(events) + self.run(events).queue.pending,
        decreases events.len(),
    {
        if events.len() > 0 {
            self.step(events[0]).lemma_closed_is_final(events.drop_first());
            assert(self.accepted(events) =~= Seq::<T>::empty());
        }
        self.lemma_exactly_once(events);
        assert(self.queue.pending + self.accepted(events) =~= self.queue.pending);
    }

    /// Whether the task of worker `id` returns during `events`.
    pub open spec fn completes(events: Seq<Event<T>>, id: int) -> bool {
        exists|k: int| 0 <= k < events.len() && events[k] == Event::<T>::Complete(id)
    }

    /// A worker that executes a task keeps executing it until the task
    /// returns, whatever else happens: it claims nothing and it does not
    /// terminate, so the pool is not shut down before.
    pub proof fn lemma_executing_until_complete(self, events: Seq<Event<T>>, id: int)
        requires
            self.is_executing(id),
            !Self::completes(events, id),
        ensures
            self.run(events).is_executing(id),
            !self.run(events).shut_down(),
        decreases events.len(),
    {
        if events.len() > 0 {
            let rest = events.drop_first();
            assert(events[0] != Event::<T>::Complete(id));
            assert forall|k: int| 0 <= k < rest.len() implies rest[k] != Event::<T>::Complete(
                id,
            ) by {
                assert(rest[k] == events[k + 1]);
            }
            self.step(events[0]).lemma_executing_until_complete(rest, id);
        }
    }

    /// A single worker serialises. While the only worker of a pool executes
    /// a task and that task has not returned, no other task is handed out,
    /// and whatever is submitted meanwhile stays pending behind what was.
    pub proof fn lemma_single_worker_serialises(self, events: Seq<Event<T>>)
        requires
            self.workers.len() == 1,
            self.is_executing(0),
            !Self::completes(events, 0),
        ensures
            self.delivered(events) == Seq::<T>::empty(),
            self.run(events).queue.pending == self.queue.pending + self.accepted(events),
        decreases events.len(),
    {
        if events.len() > 0 {
            let rest = events.drop_first();
            let next = self.step(events[0]);
            assert(events[0] != Event::<T>::Complete(0));
            assert forall|k: int| 0 <= k < rest.len() implies rest[k] != Event::<T>::Complete(
                0,
            ) by {
                assert(rest[k] == events[k + 1]);
            }
            assert(next.workers =~= self.workers);
            next.lemma_single_worker_serialises(rest);
            assert(self.delivered(events) =~= Seq::<T>::empty());
        }
        self.lemma_exactly_once(events);
        assert(self.delivered(events) + self.run(events).queue.pending =~= self.run(
            events,
        ).queue.pending);
    }

    /// Workers do not wait for each other. Two claiming workers that find two
    /// tasks pending get the two oldest, one each, and then both execute at
    /// the same time: the second claim does not need the first task to
    /// return.
    pub proof fn lemma_parallel_dispatch(self, first: int, second: int)
        requires
            self.is_claiming(first),
            self.is_claiming(second),
            first != second,
            self.queue.pending.len() >= 2,
        ensures
            self.offer(first) == Claim::Task(self.queue.pending[0]),
            self.claim(first).offer(second) == Claim::Task(self.queue.pending[1]),
            self.claim(first).claim(second).is_executing(first),
            self.claim(first).claim(second).is_executing(second),
            self.claim(first).claim(second).queue.pending == self.queue.pending.skip(2),
    {
        assert(self.claim(first).claim(second).queue.pending =~= self.queue.pending.skip(2));
    }
}

} // verus!
