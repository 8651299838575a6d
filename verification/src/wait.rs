//! What a thread gets that waits for jobs.

use vstd::prelude::*;

verus! {

/// Simple error to indicate that a job has paniced in the threadpool
#[derive(Debug)]
pub struct JobHasPanicedError {}

impl JobHasPanicedError {
    /// Says what happened.
    pub fn to_string(&self) -> (s: String)
        ensures
            s@ == "At least one job in the threadpool has caused a panic"@,
    {
        String::from_str("At least one job in the threadpool has caused a panic")
    }
}

/// What a waiting thread does next.
#[derive(Debug)]
pub enum Wait<T> {
    /// It sleeps until a job of its instance is done, and then asks again.
    Block,
    /// The wait is over, with this result.
    Done(T),
}

/// The result of a wait that is over: an error exactly if a job paniced.
pub open spec fn wait_result(has_paniced: bool) -> Result<(), JobHasPanicedError> {
    if has_paniced {
        Err(JobHasPanicedError {  })
    } else {
        Ok(())
    }
}

} // verus!
