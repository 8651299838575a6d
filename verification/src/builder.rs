//! The settings from which a pool is built.

use crate::pool::{build_outcome, spawn_callable, SpawnError, ThreadPool};
use crate::scheduler::Scheduler;
use crate::thread_amount::ThreadAmount;
use std::num::TryFromIntError;
use vstd::prelude::*;

verus! {

/// A ThreadPoolbuilder is a builder to easily create a thread pool
pub struct ThreadPoolBuilder {
    thread_amount: ThreadAmount,
}

impl View for ThreadPoolBuilder {
    /// The number of threads that the builder will build.
    type V = nat;

    closed spec fn view(&self) -> nat {
        self.thread_amount@
    }
}

impl Default for ThreadPoolBuilder {
    /// A builder for one thread.
    fn default() -> (r: ThreadPoolBuilder)
        ensures
            r@ == 1,
    {
        ThreadPoolBuilder { thread_amount: ThreadAmount::one() }
    }
}

impl ThreadPoolBuilder {
    /// Initialize the amount of threads the builder will build to `thread_amount`
    pub fn with_thread_amount(thread_amount: ThreadAmount) -> (r: ThreadPoolBuilder)
        ensures
            r@ == thread_amount@,
    {
        ThreadPoolBuilder { thread_amount }
    }

    /// Initialize the amount of threads the builder will build to `thread_amount`.
    ///
    /// # Errors
    ///
    /// If `thread_amount` is 0.
    pub fn with_thread_amount_usize(thread_amount: usize) -> (r: Result<
        ThreadPoolBuilder,
        TryFromIntError,
    >)
        ensures
            r is Err <==> thread_amount == 0,
            r matches Ok(builder) ==> builder@ == thread_amount,
    {
        match ThreadAmount::try_from(thread_amount) {
            Ok(thread_amount) => Ok(ThreadPoolBuilder::with_thread_amount(thread_amount)),
            Err(e) => Err(e),
        }
    }

    /// Initialize the amount of threads the builder will build to the available parallelism, as
    /// the platform told it.
    ///
    /// # Errors
    ///
    /// If the platform could not tell it, with the error that it gave.
    pub fn with_max_threads<E>(available: Result<ThreadAmount, E>) -> (r: Result<
        ThreadPoolBuilder,
        E,
    >)
        ensures
            match available {
                Ok(max_threads) => r matches Ok(builder) && builder@ == max_threads@,
                Err(e) => r == Err::<ThreadPoolBuilder, E>(e),
            },
    {
        match available {
            Ok(max_threads) => Ok(ThreadPoolBuilder { thread_amount: max_threads }),
            Err(e) => Err(e),
        }
    }

    /// Set the thread amount in the builder
    pub fn set_thread_amount(self, thread_amount: ThreadAmount) -> (r: ThreadPoolBuilder)
        ensures
            r@ == thread_amount@,
    {
        let mut builder = self;
        builder.thread_amount = thread_amount;
        builder
    }

    /// Set the thread amount in the builder from usize
    ///
    /// # Errors
    ///
    /// If `thread_amount` is 0.
    pub fn set_thread_amount_usize(self, thread_amount: usize) -> (r: Result<
        ThreadPoolBuilder,
        TryFromIntError,
    >)
        ensures
            r is Err <==> thread_amount == 0,
            r matches Ok(builder) ==> builder@ == thread_amount,
    {
        match ThreadAmount::try_from(thread_amount) {
            Ok(thread_amount) => Ok(self.set_thread_amount(thread_amount)),
            Err(e) => Err(e),
        }
    }

    /// Set the amount of threads the builder will build to the available parallelism, as the
    /// platform told it.
    ///
    /// # Errors
    ///
    /// If the platform could not tell it, with the error that it gave.
    pub fn set_max_threads<E>(self, available: Result<ThreadAmount, E>) -> (r: Result<
        ThreadPoolBuilder,
        E,
    >)
        ensures
            match available {
                Ok(max_threads) => r matches Ok(builder) && builder@ == max_threads@,
                Err(e) => r == Err::<ThreadPoolBuilder, E>(e),
            },
    {
        match available {
            Ok(max_threads) => Ok(self.set_thread_amount(max_threads)),
            Err(e) => Err(e),
        }
    }

    /// The amount of threads the builder will build.
    pub(crate) fn thread_amount(&self) -> (r: ThreadAmount)
        ensures
            r@ == self@,
    {
        self.thread_amount
    }

    /// Build the builder into a threadpool: its first handle, and the scheduler that its workers
    /// and all its handles share. `spawn` starts the thread of a worker, whose number and name it
    /// gets. It also gets what was started before, at first `start`, and gives back what is
    /// started then.
    ///
    /// # Errors
    ///
    /// The first error that `spawn` gives.
    pub fn build<J, S, E, F: Fn(S, usize, String) -> (S, Result<(), E>)>(
        self,
        start: S,
        spawn: F,
    ) -> (r: Result<(ThreadPool, Scheduler<J>, S), SpawnError<J, S, E>>)
        requires
            spawn_callable::<S, E, F>(spawn, self@),
        ensures
            build_outcome(self@, start, spawn, r),
            r matches Ok(built) ==> built.0@.threads == self@ && built.1@.threads == self@,
    {
        ThreadPool::new(self, start, spawn)
    }
}

} // verus!
