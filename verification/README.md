# Easy threadpool

A simple panic tolerant threadpool, whose decisions are verified with Verus.

A pool runs jobs on a fixed number of threads. Several handles can share one pool: clones of a
handle share its counters, and a handle with a new state has counters of its own, so that one of
them can send jobs that panic without any effect on the others.

## Layout

- `src/` is the library `easy_threadpool`. It decides everything that a pool decides, starts no
  thread and never blocks.
  - `builder` and `thread_amount`: the settings of a pool.
  - `shared_state`: the counters of one instance.
  - `scheduler`: the queue of jobs, the busy workers and the instances, which all threads share.
  - `pool` and `wait`: the handles, what they send, what they see, and when their waits end.
  - `model`: what a scheduler is mathematically. The contracts of `scheduler` and `pool` speak of
    it.
  - `laws`: what holds of every step of a pool and of every history of steps: jobs are taken in
    the order they were sent, none is lost, a panic costs no thread, instances do not affect each
    other, and no sleeping thread misses the end of its wait.
  - `text`: numbers and flags as text.
- `app/` is the pool of real threads around it, with a lock, condition variables and the catching
  of panics.
- `tests/` drives the workers of a pool step by step.

## Use

The program keeps the scheduler behind a lock. Each thread of the pool asks `next_job` what to do.
After a job it reports with `job_done` whether the job paniced, and wakes the threads that wait
for the instance of the job. A thread that waits asks one of the `wait_until_` functions, and
sleeps until it is woken as long as the answer is `Block`.
