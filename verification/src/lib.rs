//! A simple thread pool to execute jobs in parallel
//!
//! A pool has a fixed number of threads that execute the jobs given to it. Threads don't crash
//! when a job panics.
//!
//! This crate holds what a pool decides: which job a thread runs next and when the thread stops,
//! what is counted when a job is sent, started and done, when a wait is over and with which
//! result. It starts no thread and never blocks. The program around it keeps the
//! [`Scheduler`] behind a lock, lets each of its threads ask [`Scheduler::next_job`] for a job,
//! runs the job, reports with [`Scheduler::job_done`] whether it paniced, and puts a thread that
//! is told to [`Wait::Block`] to sleep until a job of its instance is done.
//!
//! A [`ThreadPool`] is a handle of a pool. Handles that are clones of each other belong to the
//! same instance, which means that they share their counters. A handle that was cloned with a
//! new state, or whose state was reset, belongs to an instance of its own. All instances of a
//! pool share its threads, and no instance affects another.

pub mod builder;
pub mod laws;
pub mod meaning;
pub mod model;
pub mod pool;
pub mod scheduler;
pub mod shared_state;
pub mod text;
pub mod thread_amount;
pub mod wait;

pub use builder::ThreadPoolBuilder;
pub use pool::{worker_name, JobDoneTicket, SpawnError, ThreadPool};
pub use scheduler::{Next, Scheduler};
pub use shared_state::SharedState;
pub use thread_amount::ThreadAmount;
pub use wait::{JobHasPanicedError, Wait};
