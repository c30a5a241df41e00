//! The decisions of the job runner.
//!
//! The runner hands jobs to a thread pool and listens on a channel for what
//! each worker reports. The thread pool, the channel and the database stay
//! outside the library; what is decided here is how many jobs to hand out,
//! what each report means and when the run is over.

use vstd::prelude::*;

use crate::db::BackgroundJob;
use crate::error::FetchError;
use vstd::string::StringExecFns;

verus! {

/// What a worker reports back to the runner.
#[derive(Debug)]
pub enum Event {
    /// The worker found a job and is running it.
    Working,
    /// The queue held no unlocked job.
    NoJobAvailable,
    /// The worker could not load a job from storage.
    ErrorLoadingJob(sqlx::Error),
    /// A job finished (used when waiting for jobs to complete).
    Dummy,
}

/// What the runner got when it waited on the channel for a report.
#[derive(Debug)]
pub enum Received {
    /// A worker's report.
    Message(Event),
    /// No report came before the timeout ran out.
    TimedOut,
    /// Every sender is gone.
    Disconnected,
}

/// The abstract state of a run: the limit, the reports still owed by workers,
/// the jobs known to have started, and (for reasoning only) the jobs handed out.
pub struct RunView {
    pub max_tasks: nat,
    pub pending: nat,
    pub queued: nat,
    pub spawned: nat,
}

/// How many jobs the runner hands out before it waits for the next report.
pub open spec fn spec_jobs_to_queue(max_tasks: nat, pending: nat) -> nat {
    if pending == 0 {
        max_tasks
    } else {
        (max_tasks - pending) as nat
    }
}

impl RunView {
    /// Never more reports owed than the limit, and every job handed out has
    /// either reported that it started or still owes its report.
    pub open spec fn wf(self) -> bool {
        &&& self.pending <= self.max_tasks
        &&& self.spawned == self.queued + self.pending
    }

    pub open spec fn initial(max_tasks: nat) -> RunView {
        RunView { max_tasks, pending: 0, queued: 0, spawned: 0 }
    }

    /// The state after the runner handed out `spec_jobs_to_queue` jobs.
    pub open spec fn after_queue(self) -> RunView {
        let n: nat = spec_jobs_to_queue(self.max_tasks, self.pending);
        RunView { pending: self.pending + n, spawned: self.spawned + n, ..self }
    }

    /// The state after the runner received `r`.
    pub open spec fn after_receive(self, r: Received) -> RunView {
        match r {
            Received::Message(Event::Working) => RunView {
                pending: (self.pending - 1) as nat,
                queued: self.queued + 1,
                ..self
            },
            _ => self,
        }
    }
}

/// What the runner does on receiving `r`: `None` to go on, else the result of the run.
pub open spec fn receive_decision(s: RunView, r: Received) -> Option<Result<usize, FetchError>> {
    match r {
        Received::Message(Event::Working) => None,
        Received::Message(Event::NoJobAvailable) => Some(Ok(s.queued as usize)),
        Received::Message(Event::ErrorLoadingJob(e)) => Some(Err(FetchError::FailedLoadingJob(e))),
        Received::Message(Event::Dummy) => Some(Ok(s.queued as usize)),
        Received::TimedOut => Some(Err(FetchError::Timeout)),
        Received::Disconnected => Some(Err(FetchError::NoMessage)),
    }
}

/// A report that the runner may receive in state `s`: a worker only reports
/// that it started while it still owes a report.
pub open spec fn admissible(s: RunView, r: Received) -> bool {
    r matches Received::Message(Event::Working) ==> s.pending > 0
}

/// The runner's loop over the reports `msgs`: hand out jobs, take one report,
/// and stop as soon as a report ends the run.
pub open spec fn run_outcome(s: RunView, msgs: Seq<Received>) -> (RunView, Option<Result<usize, FetchError>>)
    decreases msgs.len(),
{
    if msgs.len() == 0 {
        (s, None)
    } else {
        let q = s.after_queue();
        match receive_decision(q, msgs[0]) {
            Some(d) => (q.after_receive(msgs[0]), Some(d)),
            None => run_outcome(q.after_receive(msgs[0]), msgs.drop_first()),
        }
    }
}

/// The bookkeeping of one call of the runner's `run_pending_tasks` loop.
pub struct RunState {
    max_tasks: usize,
    pending_messages: usize,
    queued: usize,
    spawned: Ghost<nat>,
}

impl View for RunState {
    type V = RunView;

    closed spec fn view(&self) -> RunView {
        RunView {
            max_tasks: self.max_tasks as nat,
            pending: self.pending_messages as nat,
            queued: self.queued as nat,
            spawned: self.spawned@,
        }
    }
}

impl RunState {
    #[verifier::type_invariant]
    closed spec fn inv(self) -> bool {
        self@.wf()
    }

    /// A run that may keep at most `max_tasks` jobs in the thread pool.
    pub fn new(max_tasks: usize) -> (s: RunState)
        ensures
            s@ == RunView::initial(max_tasks as nat),
    {
        RunState { max_tasks, pending_messages: 0, queued: 0, spawned: Ghost(0) }
    }

    /// The limit on jobs in the thread pool.
    pub fn max_tasks(&self) -> (n: usize)
        ensures
            n == self@.max_tasks,
    {
        self.max_tasks
    }

    /// The number of jobs that reported they started.
    pub fn queued(&self) -> (n: usize)
        ensures
            n == self@.queued,
    {
        self.queued
    }

    /// The number of reports still owed by workers.
    pub fn pending(&self) -> (n: usize)
        ensures
            n == self@.pending,
    {
        self.pending_messages
    }

    /// How many jobs to hand out now: the whole limit when no report is owed,
    /// else what the owed reports leave of it.
    pub fn jobs_to_queue(&self) -> (n: usize)
        ensures
            n == spec_jobs_to_queue(self@.max_tasks, self@.pending),
            self@.pending + n == self@.max_tasks,
    {
        proof {
            use_type_invariant(self);
        }
        if self.pending_messages == 0 {
            self.max_tasks
        } else {
            self.max_tasks - self.pending_messages
        }
    }

    /// Records that the jobs to queue were handed out, and returns their number.
    /// Afterwards exactly `max_tasks` reports are owed.
    pub fn queue_jobs(&mut self) -> (n: usize)
        ensures
            n == spec_jobs_to_queue(old(self)@.max_tasks, old(self)@.pending),
            final(self)@ == old(self)@.after_queue(),
            final(self)@.pending == final(self)@.max_tasks,
    {
        proof {
            use_type_invariant(&*self);
        }
        let n: usize = self.jobs_to_queue();
        *self = RunState {
            max_tasks: self.max_tasks,
            pending_messages: self.pending_messages + n,
            queued: self.queued,
            spawned: Ghost(self.spawned@ + n as nat),
        };
        n
    }

    /// Takes what the channel gave and decides whether the run goes on
    /// (`None`) or what it returns.
    pub fn receive(&mut self, r: Received) -> (res: Option<Result<usize, FetchError>>)
        requires
            admissible(old(self)@, r),
            r matches Received::Message(Event::Working) ==> old(self)@.queued < usize::MAX,
        ensures
            final(self)@ == old(self)@.after_receive(r),
            res == receive_decision(old(self)@, r),
            final(self)@.max_tasks == old(self)@.max_tasks,
            r matches Received::Message(Event::Working) ==> {
                &&& res is None
                &&& final(self)@.queued == old(self)@.queued + 1
                &&& final(self)@.pending + 1 == old(self)@.pending
            },
            !(r matches Received::Message(Event::Working)) ==> final(self)@ == old(self)@,
            r matches Received::Message(Event::NoJobAvailable) ==> res == Some(
                Ok::<usize, FetchError>(old(self)@.queued as usize),
            ),
            r matches Received::Message(Event::Dummy) ==> res == Some(
                Ok::<usize, FetchError>(old(self)@.queued as usize),
            ),
            r matches Received::Message(Event::ErrorLoadingJob(e)) ==> res == Some(
                Err::<usize, FetchError>(FetchError::FailedLoadingJob(e)),
            ),
            r matches Received::TimedOut ==> res == Some(Err::<usize, FetchError>(FetchError::Timeout)),
            r matches Received::Disconnected ==> res == Some(
                Err::<usize, FetchError>(FetchError::NoMessage),
            ),
    {
        proof {
            use_type_invariant(&*self);
        }
        match r {
            Received::Message(Event::Working) => {
                *self = RunState {
                    max_tasks: self.max_tasks,
                    pending_messages: self.pending_messages - 1,
                    queued: self.queued + 1,
                    spawned: self.spawned,
                };
                None
            },
            Received::Message(Event::NoJobAvailable) => Some(Ok(self.queued)),
            Received::Message(Event::ErrorLoadingJob(e)) => Some(Err(FetchError::FailedLoadingJob(e))),
            Received::Message(Event::Dummy) => Some(Ok(self.queued)),
            Received::TimedOut => Some(Err(FetchError::Timeout)),
            Received::Disconnected => Some(Err(FetchError::NoMessage)),
        }
    }
}

/// Law: once the runner has topped the thread pool up to its limit, each
/// report that a job started makes it hand out exactly one more job.
pub proof fn lemma_one_job_per_started_report(s: RunView)
    requires
        s.wf(),
        s.pending == s.max_tasks,
        s.max_tasks > 0,
    ensures
        spec_jobs_to_queue(
            s.after_receive(Received::Message(Event::Working)).max_tasks,
            s.after_receive(Received::Message(Event::Working)).pending,
        ) == 1,
        s.after_receive(Received::Message(Event::Working)).after_queue().pending == s.max_tasks,
{
}

/// Reports that say `k` workers started a job, followed by `last`.
pub open spec fn started_then(k: nat, last: Received) -> Seq<Received> {
    Seq::new(k, |i: int| Received::Message(Event::Working)).push(last)
}

/// A run with a limit of `max_tasks` may only be told that a job started if
/// it may hand out jobs at all.
pub open spec fn reports_admissible(max_tasks: nat, msgs: Seq<Received>) -> bool {
    forall|i: int|
        0 <= i < msgs.len() ==> (#[trigger] msgs[i] matches Received::Message(Event::Working)
            ==> max_tasks > 0)
}

/// Law: whatever the workers report, the runner never has more than
/// `max_tasks` jobs owing a report, and every job it handed out has either
/// reported that it started or still owes its report.
pub proof fn lemma_run_stays_within_limit(s: RunView, msgs: Seq<Received>)
    requires
        s.wf(),
        reports_admissible(s.max_tasks, msgs),
    ensures
        run_outcome(s, msgs).0.wf(),
        run_outcome(s, msgs).0.max_tasks == s.max_tasks,
    decreases msgs.len(),
{
    if msgs.len() > 0 {
        let q = s.after_queue();
        assert(q.wf());
        assert(msgs[0] matches Received::Message(Event::Working) ==> q.pending > 0);
        let next = q.after_receive(msgs[0]);
        assert(next.wf());
        if receive_decision(q, msgs[0]) is None {
            assert forall|i: int| 0 <= i < msgs.drop_first().len() implies
                (#[trigger] msgs.drop_first()[i] matches Received::Message(Event::Working)
                    ==> s.max_tasks > 0) by {
                assert(msgs.drop_first()[i] == msgs[i + 1]);
            }
            lemma_run_stays_within_limit(next, msgs.drop_first());
        }
    }
}

/// Law: a run in which `k` workers report that they started a job and then
/// one report ends the run returns what that report calls for, counting the
/// `k` started jobs: `Ok(queued + k)` when the queue ran empty.
pub proof fn lemma_run_counts_started_jobs(s: RunView, k: nat, last: Received)
    requires
        s.wf(),
        s.max_tasks > 0,
        !(last matches Received::Message(Event::Working)),
    ensures
        run_outcome(s, started_then(k, last)).1 == receive_decision(
            RunView { queued: s.queued + k, ..s },
            last,
        ),
    decreases k,
{
    let msgs = started_then(k, last);
    if k == 0 {
        assert(msgs[0] == last);
    } else {
        let q = s.after_queue();
        assert(msgs[0] == Received::Message(Event::Working));
        let next = q.after_receive(msgs[0]);
        assert(msgs.drop_first() =~= started_then((k - 1) as nat, last));
        lemma_run_counts_started_jobs(next, (k - 1) as nat, last);
    }
}

/// What the wait for finished jobs got from the channel or its timer.
pub enum WaitInput {
    /// A worker's report.
    Message(Event),
    /// The channel is closed (no report will come from it).
    Closed,
    /// The timer for this report ran out.
    TimedOut,
}

/// One step of the wait: the reports still awaited after `input`, and
/// whether the wait stops there.
pub open spec fn wait_step(remaining: nat, input: WaitInput) -> (nat, bool) {
    match input {
        WaitInput::Message(Event::NoJobAvailable) => (remaining, true),
        WaitInput::Message(Event::Dummy) => ((remaining - 1) as nat, remaining - 1 == 0),
        WaitInput::TimedOut => (remaining, true),
        _ => (remaining, false),
    }
}

/// The wait over the inputs `inputs`, starting with `remaining` finished jobs
/// awaited: the reports still awaited and whether the wait is over.
pub open spec fn wait_outcome(remaining: nat, inputs: Seq<WaitInput>) -> (nat, bool)
    decreases inputs.len(),
{
    if remaining == 0 {
        (0, true)
    } else if inputs.len() == 0 {
        (remaining, false)
    } else {
        let (r, done) = wait_step(remaining, inputs[0]);
        if done {
            (r, true)
        } else {
            wait_outcome(r, inputs.drop_first())
        }
    }
}

/// The wait for `pending` jobs to finish: it ends when each has reported that
/// it finished, when the queue is reported empty, or when a report times out.
pub struct TaskWait {
    remaining: usize,
}

impl TaskWait {
    /// A wait for `pending` finished jobs.
    pub fn new(pending: usize) -> (w: TaskWait)
        ensures
            w.remaining() == pending,
    {
        TaskWait { remaining: pending }
    }

    /// The number of finished jobs still awaited.
    pub closed spec fn remaining(self) -> nat {
        self.remaining as nat
    }

    /// Whether every awaited job has finished.
    pub fn is_finished(&self) -> (b: bool)
        ensures
            b == (self.remaining() == 0),
    {
        self.remaining == 0
    }

    /// Takes one input and says whether the wait is over.
    pub fn observe(&mut self, input: WaitInput) -> (done: bool)
        requires
            old(self).remaining() > 0,
        ensures
            (final(self).remaining(), done) == wait_step(old(self).remaining(), input),
    {
        match input {
            WaitInput::Message(Event::NoJobAvailable) => true,
            WaitInput::Message(Event::Dummy) => {
                self.remaining = self.remaining - 1;
                self.remaining == 0
            },
            WaitInput::TimedOut => true,
            _ => false,
        }
    }
}

/// `n` reports that a job finished.
pub open spec fn finished_reports(n: nat) -> Seq<WaitInput> {
    Seq::new(n, |i: int| WaitInput::Message(Event::Dummy))
}

/// Law: checking for failed jobs blocks until all awaited jobs are finished:
/// after `n` of `pending` jobs reported that they finished, the wait is over
/// exactly when `n == pending`, and `pending - n` reports are still awaited.
pub proof fn lemma_wait_until_all_finished(pending: nat, n: nat)
    requires
        n <= pending,
    ensures
        wait_outcome(pending, finished_reports(n)) == ((pending - n) as nat, n == pending),
    decreases n,
{
    if n > 0 && pending > 0 {
        let inputs = finished_reports(n);
        assert(inputs[0] == WaitInput::Message(Event::Dummy));
        assert(inputs.drop_first() =~= finished_reports((n - 1) as nat));
        lemma_wait_until_all_finished((pending - 1) as nat, (n - 1) as nat);
    }
}

/// Law: a report that the queue is empty, or a timeout, ends the wait at once.
pub proof fn lemma_wait_ends_on_empty_queue_or_timeout(remaining: nat, inputs: Seq<WaitInput>)
    requires
        inputs.len() > 0,
        inputs[0] matches WaitInput::Message(Event::NoJobAvailable) || inputs[0] matches WaitInput::TimedOut,
    ensures
        wait_outcome(remaining, inputs) == (remaining, true),
{
}

/// What a worker reports after trying to load the next unlocked job, and the
/// job it then runs: a found job is reported as started, an empty queue as
/// such, and a storage error (also one in opening the transaction) is passed on.
pub fn next_job_event(found: Result<Option<BackgroundJob>, sqlx::Error>) -> (res: (Event, Option<BackgroundJob>))
    ensures
        match found {
            Ok(Some(job)) => res == (Event::Working, Some(job)),
            Ok(None) => res == (Event::NoJobAvailable, None::<BackgroundJob>),
            Err(e) => res == (Event::ErrorLoadingJob(e), None::<BackgroundJob>),
        },
{
    match found {
        Ok(Some(job)) => (Event::Working, Some(job)),
        Ok(None) => (Event::NoJobAvailable, None),
        Err(e) => (Event::ErrorLoadingJob(e), None),
    }
}

/// What happens to a job's row once the job has run. Either way the
/// transaction is then committed and the finish hook is called with the id.
pub enum FinishAction {
    /// The job succeeded: its row is deleted.
    DeleteJob(i64),
    /// The job failed or panicked: its retry counter goes up by one.
    MarkFailed(i64),
}

impl FinishAction {
    /// The id of the job the action is about (the one the finish hook gets).
    pub fn job_id(&self) -> (id: i64)
        ensures
            id == match *self {
                FinishAction::DeleteJob(i) => i,
                FinishAction::MarkFailed(i) => i,
            },
    {
        match self {
            FinishAction::DeleteJob(i) => *i,
            FinishAction::MarkFailed(i) => *i,
        }
    }
}

/// The action for a job that ran with `result`: delete it on success, count a
/// retry on failure (a panic in the job counts as a failure).
pub fn finish_action<E>(result: &Result<(), E>, job_id: i64) -> (action: FinishAction)
    ensures
        result is Ok ==> action == FinishAction::DeleteJob(job_id),
        result is Err ==> action == FinishAction::MarkFailed(job_id),
{
    match result {
        Ok(_) => FinishAction::DeleteJob(job_id),
        Err(_) => FinishAction::MarkFailed(job_id),
    }
}

/// The prefix of the message for a job that panicked.
pub open spec fn spec_panic_prefix() -> Seq<char> {
    seq!['j', 'o', 'b', ' ', 'p', 'a', 'n', 'i', 'c', 'k', 'e', 'd']
}

/// The failure recorded for a job that panicked: `job panicked: <detail>` when
/// the panic carried a message, else `job panicked`.
pub fn panic_message(detail: Option<&str>) -> (msg: String)
    ensures
        match detail {
            Some(d) => msg@ == spec_panic_prefix() + seq![':', ' '] + d@,
            None => msg@ == spec_panic_prefix(),
        },
        detail is None ==> msg@ == "job panicked"@,
        detail matches Some(d) ==> msg@ == "job panicked: "@ + d@,
{
    proof {
        reveal_strlit("job panicked");
        reveal_strlit("job panicked: ");
    }
    let mut msg = String::from_str("job panicked");
    proof {
        reveal_strlit("job panicked");
    }
    match detail {
        Some(d) => {
            msg.append(": ");
            proof {
                reveal_strlit(": ");
            }
            msg.append(d);
            assert(msg@ =~= spec_panic_prefix() + seq![':', ' '] + d@);
        },
        None => {
            assert(msg@ =~= spec_panic_prefix());
        },
    }
    msg
}

/// A span of time in whole seconds and nanoseconds, as `std::time::Duration` holds it.
#[derive(Clone, Copy, Debug, PartialEq, Eq, Structural)]
pub struct Timeout {
    pub secs: u64,
    pub nanos: u32,
}

/// How long the runner waits for a worker to report when no timeout was set: five seconds.
pub open spec fn spec_default_timeout() -> Timeout {
    Timeout { secs: 5, nanos: 0 }
}

/// The settings a runner is built from; each left unset takes its default.
pub struct RunnerSettings {
    /// Threads of the thread pool (`None`: the pool's own default).
    pub num_threads: Option<usize>,
    /// Most jobs in the thread pool at any one time (`None`: as many as it has threads).
    pub max_tasks: Option<usize>,
    /// Longest wait for a worker's report (`None`: five seconds).
    pub timeout: Option<Timeout>,
}

/// The settings of a built runner.
#[derive(Clone, Copy, Debug, PartialEq, Eq, Structural)]
pub struct RunnerConfig {
    pub max_tasks: usize,
    pub timeout: Timeout,
}

impl RunnerSettings {
    /// Nothing set.
    pub fn new() -> (s: RunnerSettings)
        ensures
            s.num_threads is None,
            s.max_tasks is None,
            s.timeout is None,
    {
        RunnerSettings { num_threads: None, max_tasks: None, timeout: None }
    }

    /// Sets the number of threads of the thread pool.
    pub fn num_threads(self, threads: usize) -> (s: RunnerSettings)
        ensures
            s == (RunnerSettings { num_threads: Some(threads), ..self }),
    {
        RunnerSettings { num_threads: Some(threads), ..self }
    }

    /// Sets the most jobs to have in the thread pool at any one time.
    pub fn max_tasks(self, max_tasks: usize) -> (s: RunnerSettings)
        ensures
            s == (RunnerSettings { max_tasks: Some(max_tasks), ..self }),
    {
        RunnerSettings { max_tasks: Some(max_tasks), ..self }
    }

    /// Sets how long to wait for a worker to report before giving up.
    pub fn timeout(self, timeout: Timeout) -> (s: RunnerSettings)
        ensures
            s == (RunnerSettings { timeout: Some(timeout), ..self }),
    {
        RunnerSettings { timeout: Some(timeout), ..self }
    }

    /// The settings of the runner built on a thread pool of `pool_threads`
    /// threads: the limit on jobs defaults to the pool's threads, the timeout
    /// to five seconds.
    pub fn resolve(&self, pool_threads: usize) -> (c: RunnerConfig)
        ensures
            c.max_tasks == match self.max_tasks {
                Some(m) => m,
                None => pool_threads,
            },
            c.timeout == match self.timeout {
                Some(t) => t,
                None => spec_default_timeout(),
            },
            self.timeout is None ==> c.timeout == (Timeout { secs: 5, nanos: 0 }),
    {
        let max_tasks: usize = match self.max_tasks {
            Some(m) => m,
            None => pool_threads,
        };
        let timeout = match self.timeout {
            Some(t) => t,
            None => Timeout { secs: 5, nanos: 0 },
        };
        RunnerConfig { max_tasks, timeout }
    }
}

/// Law: whatever the state of the run, a report that the queue is empty ends
/// it with `Ok(q)`, where `q` counts the reports that a job started; nothing
/// caps the count (in particular not the limit on jobs in the pool).
pub proof fn lemma_empty_queue_returns_started_count(s: RunView)
    ensures
        receive_decision(s, Received::Message(Event::NoJobAvailable)) == Some(
            Ok::<usize, FetchError>(s.queued as usize),
        ),
        s.after_receive(Received::Message(Event::NoJobAvailable)) == s,
{
}

/// Law: whatever the state of the run and however many jobs started, a
/// worker's failure to load a job ends the run with that very error.
pub proof fn lemma_load_error_ends_run_with_error(s: RunView, e: sqlx::Error)
    ensures
        receive_decision(s, Received::Message(Event::ErrorLoadingJob(e))) == Some(
            Err::<usize, FetchError>(FetchError::FailedLoadingJob(e)),
        ),
{
}

/// Law: a report that a job started never ends the run; it moves one job from
/// "owing a report" to "started".
pub proof fn lemma_started_report_continues(s: RunView)
    requires
        s.pending > 0,
    ensures
        receive_decision(s, Received::Message(Event::Working)) is None,
        s.after_receive(Received::Message(Event::Working)).queued == s.queued + 1,
        s.after_receive(Received::Message(Event::Working)).pending + 1 == s.pending,
        s.after_receive(Received::Message(Event::Working)).max_tasks == s.max_tasks,
{
}

/// Law: a timeout ends the run with `Timeout`, a closed channel with
/// `NoMessage`, in every state.
pub proof fn lemma_timeout_and_disconnect_end_run(s: RunView)
    ensures
        receive_decision(s, Received::TimedOut) == Some(Err::<usize, FetchError>(FetchError::Timeout)),
        receive_decision(s, Received::Disconnected) == Some(
            Err::<usize, FetchError>(FetchError::NoMessage),
        ),
{
}

/// Law: a whole run with a limit of `max_tasks` in which `k` jobs start and
/// the queue is then reported empty returns `Ok(k)`, for any `k`, also one
/// above the limit.
pub proof fn lemma_run_returns_all_started_jobs(max_tasks: nat, k: nat)
    requires
        max_tasks > 0,
        k <= usize::MAX,
    ensures
        run_outcome(RunView::initial(max_tasks), started_then(k, Received::Message(Event::NoJobAvailable))).1
            == Some(Ok::<usize, FetchError>(k as usize)),
{
    lemma_run_counts_started_jobs(RunView::initial(max_tasks), k, Received::Message(Event::NoJobAvailable));
}

/// Law: a whole run in which `k` jobs start and a worker then fails to load
/// a job returns that load error, for any `k`.
pub proof fn lemma_run_returns_load_error(max_tasks: nat, k: nat, e: sqlx::Error)
    requires
        max_tasks > 0,
    ensures
        run_outcome(RunView::initial(max_tasks), started_then(k, Received::Message(Event::ErrorLoadingJob(e)))).1
            == Some(Err::<usize, FetchError>(FetchError::FailedLoadingJob(e))),
{
    lemma_run_counts_started_jobs(RunView::initial(max_tasks), k, Received::Message(Event::ErrorLoadingJob(e)));
}

/// Law: one step of the wait. A finished job lowers the count by exactly one
/// and ends the wait exactly when none is left; an empty queue or a timeout
/// ends it leaving the count; any other input changes nothing.
pub proof fn lemma_wait_step_meaning(remaining: nat, input: WaitInput)
    requires
        remaining > 0,
    ensures
        input matches WaitInput::Message(Event::Dummy) ==> wait_step(remaining, input) == (
            (remaining - 1) as nat,
            remaining == 1,
        ),
        input matches WaitInput::Message(Event::NoJobAvailable) ==> wait_step(remaining, input) == (
            remaining,
            true,
        ),
        input matches WaitInput::TimedOut ==> wait_step(remaining, input) == (remaining, true),
        input matches WaitInput::Closed ==> wait_step(remaining, input) == (remaining, false),
        input matches WaitInput::Message(Event::Working) ==> wait_step(remaining, input) == (
            remaining,
            false,
        ),
        input matches WaitInput::Message(Event::ErrorLoadingJob(_)) ==> wait_step(remaining, input)
            == (remaining, false),
{
}

/// Law: handing out jobs tops the pool up to exactly its limit: the number
/// handed out is what the owed reports leave of the limit, and nothing else
/// in the state changes but the jobs handed out.
pub proof fn lemma_queue_fills_pool(s: RunView)
    requires
        s.wf(),
    ensures
        spec_jobs_to_queue(s.max_tasks, s.pending) + s.pending == s.max_tasks,
        s.after_queue().pending == s.max_tasks,
        s.after_queue().max_tasks == s.max_tasks,
        s.after_queue().queued == s.queued,
        s.after_queue().wf(),
{
}

} // verus!
