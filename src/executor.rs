//! The engine-thread executor: a FIFO of jobs consumed by the one thread
//! that owns the engine, with its shutdown state machine.
//!
//! The worker thread and the blocking on a reply channel are the caller's;
//! this type decides what is queued, what runs next, and when to stop.

use std::collections::VecDeque;
use vstd::prelude::*;

verus! {

/// A unit of work for the engine thread: `Shared` needs the engine only,
/// `Exclusive` needs mutable access to the runtime's own configuration.
pub enum Job<I, M> {
    Shared(I),
    Exclusive(M),
}

/// Where the executor is in its life.
#[derive(Clone, Copy, Debug, PartialEq, Eq, Structural)]
pub enum RunState {
    /// Accepting and running jobs.
    Running,
    /// A cleanup job has been queued; the queue is draining.
    Stopping,
    /// The worker has exited.
    Stopped,
}

/// What a synchronous submission asks the caller to do.
pub enum Submission<J> {
    /// The job was queued; wait for its reply.
    Queued,
    /// The caller is the engine thread itself: waiting would deadlock, so run
    /// the job in place.
    RunInline(J),
    /// The executor no longer accepts work; the job is handed back.
    Refused(J),
}

/// What the worker thread does next.
pub enum WorkerStep<I, M> {
    /// Run this job, then let the engine drain its microtasks.
    Run(Job<I, M>),
    /// Nothing queued: wait for a submission.
    Idle,
    /// The queue has drained after shutdown: exit.
    Exit,
}

/// The job queue of one engine instance.
pub struct EsRuntimeWrapperInner<I, M> {
    queue: VecDeque<Job<I, M>>,
    state: RunState,
}

impl<I, M> EsRuntimeWrapperInner<I, M> {
    /// The queued jobs, oldest first.
    pub closed spec fn jobs(&self) -> Seq<Job<I, M>> {
        self.queue@
    }

    pub closed spec fn run_state(&self) -> RunState {
        self.state
    }

    /// An executor with nothing queued.
    pub fn new() -> (r: Self)
        ensures
            r.jobs() == Seq::<Job<I, M>>::empty(),
            r.run_state() == RunState::Running,
    {
        EsRuntimeWrapperInner { queue: VecDeque::new(), state: RunState::Running }
    }

    pub fn state(&self) -> (r: RunState)
        ensures
            r == self.run_state(),
    {
        self.state
    }

    /// Number of queued jobs.
    pub fn pending(&self) -> (r: usize)
        ensures
            r == self.jobs().len(),
    {
        self.queue.len()
    }

    /// Fire-and-forget submission: the job runs after every job queued before
    /// it. A stopped or stopping executor takes no more work; the job is
    /// handed back.
    pub fn do_in_es_runtime_thread(&mut self, job: I) -> (r: Option<I>)
        ensures
            final(self).run_state() == old(self).run_state(),
            old(self).run_state() == RunState::Running ==> {
                &&& r is None
                &&& final(self).jobs() == old(self).jobs().push(Job::Shared(job))
            },
            old(self).run_state() != RunState::Running ==> {
                &&& r == Some(job)
                &&& final(self).jobs() == old(self).jobs()
            },
    {
        if self.state == RunState::Running {
            self.queue.push_back(Job::Shared(job));
            None
        } else {
            Some(job)
        }
    }

    /// Synchronous submission. From any thread but the engine thread the job
    /// is queued and the caller then waits for its reply; on the engine
    /// thread it must run in place.
    pub fn do_in_es_runtime_thread_sync(&mut self, job: I, on_engine_thread: bool) -> (r: Submission<
        I,
    >)
        ensures
            final(self).run_state() == old(self).run_state(),
            on_engine_thread ==> r == Submission::RunInline(job) && final(self).jobs() == old(
                self,
            ).jobs(),
            !on_engine_thread && old(self).run_state() == RunState::Running ==> {
                &&& r is Queued
                &&& final(self).jobs() == old(self).jobs().push(Job::Shared(job))
            },
            !on_engine_thread && old(self).run_state() != RunState::Running ==> {
                &&& r == Submission::Refused(job)
                &&& final(self).jobs() == old(self).jobs()
            },
    {
        if on_engine_thread {
            Submission::RunInline(job)
        } else if self.state == RunState::Running {
            self.queue.push_back(Job::Shared(job));
            Submission::Queued
        } else {
            Submission::Refused(job)
        }
    }

    /// Synchronous submission of a job that needs mutable access to the
    /// runtime. It goes through the same queue, so no other lock is needed.
    pub fn do_in_es_runtime_thread_mut_sync(&mut self, job: M, on_engine_thread: bool) -> (r:
        Submission<M>)
        ensures
            final(self).run_state() == old(self).run_state(),
            on_engine_thread ==> r == Submission::RunInline(job) && final(self).jobs() == old(
                self,
            ).jobs(),
            !on_engine_thread && old(self).run_state() == RunState::Running ==> {
                &&& r is Queued
                &&& final(self).jobs() == old(self).jobs().push(Job::Exclusive(job))
            },
            !on_engine_thread && old(self).run_state() != RunState::Running ==> {
                &&& r == Submission::Refused(job)
                &&& final(self).jobs() == old(self).jobs()
            },
    {
        if on_engine_thread {
            Submission::RunInline(job)
        } else if self.state == RunState::Running {
            self.queue.push_back(Job::Exclusive(job));
            Submission::Queued
        } else {
            Submission::Refused(job)
        }
    }

    /// Submits the job that installs a native operation; it needs mutable
    /// access to the runtime.
    pub fn register_op(&mut self, install: M, on_engine_thread: bool) -> (r: Submission<M>)
        ensures
            final(self).run_state() == old(self).run_state(),
            on_engine_thread ==> r == Submission::RunInline(install) && final(self).jobs() == old(
                self,
            ).jobs(),
            !on_engine_thread && old(self).run_state() == RunState::Running ==> {
                &&& r is Queued
                &&& final(self).jobs() == old(self).jobs().push(Job::Exclusive(install))
            },
            !on_engine_thread && old(self).run_state() != RunState::Running ==> {
                &&& r == Submission::Refused(install)
                &&& final(self).jobs() == old(self).jobs()
            },
    {
        self.do_in_es_runtime_thread_mut_sync(install, on_engine_thread)
    }

    /// Begins shutdown with a cleanup job. The first call queues the cleanup
    /// behind everything already queued (or, on the engine thread, hands it
    /// back to run in place) and stops accepting work; later calls do
    /// nothing.
    pub fn cleanup_sync(&mut self, cleanup: M, on_engine_thread: bool) -> (r: Submission<M>)
        ensures
            old(self).run_state() == RunState::Running ==> final(self).run_state()
                == RunState::Stopping,
            old(self).run_state() != RunState::Running ==> {
                &&& r == Submission::Refused(cleanup)
                &&& final(self).jobs() == old(self).jobs()
                &&& final(self).run_state() == old(self).run_state()
            },
            old(self).run_state() == RunState::Running && on_engine_thread ==> {
                &&& r == Submission::RunInline(cleanup)
                &&& final(self).jobs() == old(self).jobs()
            },
            old(self).run_state() == RunState::Running && !on_engine_thread ==> {
                &&& r is Queued
                &&& final(self).jobs() == old(self).jobs().push(Job::Exclusive(cleanup))
            },
    {
        if self.state != RunState::Running {
            Submission::Refused(cleanup)
        } else {
            self.state = RunState::Stopping;
            if on_engine_thread {
                Submission::RunInline(cleanup)
            } else {
                self.queue.push_back(Job::Exclusive(cleanup));
                Submission::Queued
            }
        }
    }

    /// The worker's next step: the oldest queued job; or, once the queue has
    /// drained after shutdown, exit.
    pub fn next_step(&mut self) -> (r: WorkerStep<I, M>)
        ensures
            old(self).jobs().len() > 0 ==> {
                &&& r == WorkerStep::Run(old(self).jobs()[0])
                &&& final(self).jobs() == old(self).jobs().drop_first()
                &&& final(self).run_state() == old(self).run_state()
            },
            old(self).jobs().len() == 0 ==> {
                &&& final(self).jobs() == old(self).jobs()
                &&& old(self).run_state() == RunState::Running ==> r is Idle
                    && final(self).run_state() == RunState::Running
                &&& old(self).run_state() != RunState::Running ==> r is Exit
                    && final(self).run_state() == RunState::Stopped
            },
    {
        match self.queue.pop_front() {
            Some(job) => {
                proof {
                    assert(self.queue@ =~= old(self).queue@.drop_first());
                }
                WorkerStep::Run(job)
            },
            None => {
                if self.state == RunState::Running {
                    WorkerStep::Idle
                } else {
                    self.state = RunState::Stopped;
                    WorkerStep::Exit
                }
            },
        }
    }
}

/// The queue that results from submitting the jobs of `s`, in order, to a
/// queue holding `q`.
pub open spec fn after_submissions<T>(q: Seq<T>, s: Seq<T>) -> Seq<T>
    decreases s.len(),
{
    if s.len() == 0 {
        q
    } else {
        after_submissions(q.push(s[0]), s.drop_first())
    }
}

/// The jobs that `n` worker steps take, in order, from a queue holding `q`.
pub open spec fn taken<T>(q: Seq<T>, n: nat) -> Seq<T>
    decreases n,
{
    if n == 0 || q.len() == 0 {
        Seq::empty()
    } else {
        seq![q[0]] + taken(q.drop_first(), (n - 1) as nat)
    }
}

proof fn lemma_after_submissions_is_concat<T>(q: Seq<T>, s: Seq<T>)
    ensures
        after_submissions(q, s) == q + s,
    decreases s.len(),
{
    if s.len() == 0 {
        assert(q + s =~= q);
    } else {
        lemma_after_submissions_is_concat(q.push(s[0]), s.drop_first());
        assert(q.push(s[0]) + s.drop_first() =~= q + s);
    }
}

proof fn lemma_take_all<T>(q: Seq<T>)
    ensures
        taken(q, q.len()) == q,
    decreases q.len(),
{
    if q.len() > 0 {
        lemma_take_all(q.drop_first());
        assert(seq![q[0]] + q.drop_first() =~= q);
    } else {
        assert(q =~= Seq::<T>::empty());
    }
}

/// One more submission: submitting the jobs of `s` and then `j` gives the
/// queue that submitting `s` gives, with `j` pushed at the back, which is
/// what each submitting method's `ensures` states of `jobs()`.
pub proof fn lemma_submission_step<T>(q: Seq<T>, s: Seq<T>, j: T)
    ensures
        after_submissions(q, s.push(j)) == after_submissions(q, s).push(j),
{
    lemma_after_submissions_is_concat(q, s.push(j));
    lemma_after_submissions_is_concat(q, s);
    assert(q + s.push(j) =~= (q + s).push(j));
}

/// Jobs run in the order they were submitted. If the queue of `after` is
/// the queue of `before` with the jobs of `s` submitted one by one behind
/// it (by `do_in_es_runtime_thread` and the synchronous methods, from one
/// thread, see `lemma_submission_step`), then the worker's `next_step`
/// takes exactly the jobs queued in `before`, then those of `s`, each in
/// order (`taken` follows what `next_step` states of `jobs()`).
pub proof fn lemma_fifo_order<I, M>(
    before: EsRuntimeWrapperInner<I, M>,
    after: EsRuntimeWrapperInner<I, M>,
    s: Seq<Job<I, M>>,
)
    requires
        after.jobs() == after_submissions(before.jobs(), s),
    ensures
        taken(after.jobs(), before.jobs().len() + s.len()) == before.jobs() + s,
{
    lemma_after_submissions_is_concat(before.jobs(), s);
    lemma_take_all(before.jobs() + s);
}

} // verus!
