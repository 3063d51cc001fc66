//! A fixed-size worker pool, stated as a state machine and proved.
//!
//! The pool keeps one FIFO queue of tasks and a fixed set of workers. Callers
//! submit tasks; each worker claims one task at a time, runs it outside the
//! pool, and reports back when it is done. Closing the queue is final: tasks
//! that were accepted before are still handed out, later ones are refused,
//! and a worker that finds the queue closed and empty terminates.
//!
//! Nothing in this crate blocks or spawns a thread. A runtime guards one
//! [`pool::ThreadPool`] with a lock, lets each of its threads call
//! [`pool::ThreadPool::claim`] under the lock and run the task after
//! releasing it, and waits where a claim answers [`queue::Claim::Wait`].
//!
//! - [`queue`], [`worker`] and [`pool`] hold the data and its operations,
//!   each with the mathematical value it stands for.
//! - [`trace`] proves what holds of every run of a pool: no task is lost or
//!   handed out twice, closing is final, a worker keeps its task until the
//!   task returns, and workers do not wait for each other.
//! - [`teardown`] proves that a closed pool shuts down after a known number
//!   of worker steps.
//! - [`http`] holds what a connection handler needs to tell a request and to
//!   frame its answer.
pub mod error;
pub mod http;
pub mod pool;
pub mod queue;
pub mod teardown;
pub mod trace;
pub mod worker;
