use coil::runner::{
    finish_action, next_job_event, panic_message, Event, FinishAction, Received, RunState,
    RunnerSettings, TaskWait, Timeout, WaitInput,
};
use coil::error::failed_jobs_outcome;
use coil::{BackgroundJob, FailedJobsError, FetchError};

fn job(id: i64) -> BackgroundJob {
    BackgroundJob { id, job_type: "Foo".to_string(), data: vec![0x91, 0x00] }
}

/// Drives a run the way the runner's loop does: hand out jobs, then take one
/// report, until a report ends the run. Returns the run's result and the
/// number of jobs handed out.
fn drive(max_tasks: usize, reports: Vec<Received>) -> (Option<Result<usize, FetchError>>, usize) {
    let mut state = RunState::new(max_tasks);
    let mut spawned = 0;
    for r in reports {
        spawned += state.queue_jobs();
        assert!(state.pending() <= state.max_tasks());
        if let Some(res) = state.receive(r) {
            return (Some(res), spawned);
        }
    }
    (None, spawned)
}

fn wait_for(pending: usize, inputs: Vec<WaitInput>) -> (bool, usize) {
    let mut wait = TaskWait::new(pending);
    let mut taken = 0;
    for input in inputs {
        if wait.is_finished() {
            break;
        }
        taken += 1;
        if wait.observe(input) {
            return (true, taken);
        }
    }
    (wait.is_finished(), taken)
}

#[test]
fn sync_jobs_are_locked_when_fetched() {
    let first_job_id = 1;
    let second_job_id = 2;
    // Two workers each fetch the next unlocked job: the first gets the first
    // job, the second the second, and each reports that it started.
    let (event, fetched) = next_job_event(Ok(Some(job(first_job_id))));
    assert!(matches!(event, Event::Working));
    assert_eq!(first_job_id, fetched.unwrap().id);
    let (event, fetched) = next_job_event(Ok(Some(job(second_job_id))));
    assert!(matches!(event, Event::Working));
    assert_eq!(second_job_id, fetched.unwrap().id);
    let (done, _) = wait_for(2, vec![WaitInput::Message(Event::Dummy), WaitInput::Message(Event::Dummy)]);
    assert!(done);
}

#[test]
fn jobs_are_deleted_when_successfully_run() {
    let result: Result<(), String> = Ok(());
    let action = finish_action(&result, 7);
    assert!(matches!(action, FinishAction::DeleteJob(7)));
    assert_eq!(7, action.job_id());
    let (done, taken) = wait_for(1, vec![WaitInput::Message(Event::Dummy)]);
    assert!(done);
    assert_eq!(1, taken);
}

#[test]
fn panicking_in_sync_jobs_updates_retry_counter() {
    let job_id = 3;
    let result: Result<(), String> = Err(panic_message(None));
    let action = finish_action(&result, job_id);
    assert!(matches!(action, FinishAction::MarkFailed(3)));
    assert_eq!(job_id, action.job_id());
}

#[test]
fn run_all_pending_jobs_returns_when_all_jobs_enqueued() {
    // Four workers; two find a job, the next one finds the queue empty.
    let (res, spawned) = drive(
        4,
        vec![
            Received::Message(Event::Working),
            Received::Message(Event::Working),
            Received::Message(Event::NoJobAvailable),
        ],
    );
    assert!(matches!(res, Some(Ok(2))));
    assert_eq!(6, spawned);
}

#[test]
fn check_for_failed_jobs_blocks_until_all_queued_jobs_are_finished() {
    let mut wait = TaskWait::new(2);
    assert!(!wait.observe(WaitInput::Message(Event::Working)));
    assert!(!wait.observe(WaitInput::Message(Event::Dummy)));
    assert!(!wait.is_finished());
    assert!(wait.observe(WaitInput::Message(Event::Dummy)));
    assert!(wait.is_finished());
    assert_eq!(Ok(()), failed_jobs_outcome(0));
}

#[test]
fn check_for_failed_jobs_panics_if_jobs_failed() {
    let failure: Result<(), String> = Err("failure".to_string());
    for id in 1..=3 {
        assert!(matches!(finish_action(&failure, id), FinishAction::MarkFailed(_)));
    }
    let (done, _) = wait_for(3, vec![
        WaitInput::Message(Event::Dummy),
        WaitInput::Message(Event::Dummy),
        WaitInput::Message(Event::Dummy),
    ]);
    assert!(done);
    assert_eq!(Err(FailedJobsError::JobsFailed(3)), failed_jobs_outcome(3));
}

#[test]
fn panicking_jobs_are_caught_and_treated_as_failures() {
    let panicked: Result<(), String> = Err(panic_message(Some("explicit panic")));
    let failed: Result<(), String> = Err("failure".to_string());
    assert!(matches!(finish_action(&panicked, 1), FinishAction::MarkFailed(1)));
    assert!(matches!(finish_action(&failed, 2), FinishAction::MarkFailed(2)));
    assert_eq!(Err(FailedJobsError::JobsFailed(2)), failed_jobs_outcome(2));
}

#[test]
fn run_all_pending_jobs_errs_if_jobs_dont_start_in_timeout() {
    // One thread, one task at a time: the first job starts and hangs, the
    // second never starts before the timeout.
    let settings = RunnerSettings::new()
        .num_threads(1)
        .max_tasks(1)
        .timeout(Timeout { secs: 0, nanos: 50_000_000 });
    let config = settings.resolve(1);
    assert_eq!(1, config.max_tasks);
    assert_eq!(Timeout { secs: 0, nanos: 50_000_000 }, config.timeout);
    let (res, _) = drive(
        config.max_tasks,
        vec![Received::Message(Event::Working), Received::TimedOut],
    );
    assert!(matches!(res, Some(Err(FetchError::Timeout))));
}

#[test]
fn jobs_failing_to_load_doesnt_panic_threads() {
    let (event, fetched) = next_job_event(Err(sqlx::Error::PoolTimedOut));
    assert!(fetched.is_none());
    assert!(matches!(event, Event::ErrorLoadingJob(_)));
    let (res, _) = drive(1, vec![Received::Message(event)]);
    assert!(matches!(res, Some(Err(FetchError::FailedLoadingJob(_)))));
    // The job never ran, so the wait times out and no job failed.
    let (done, _) = wait_for(1, vec![WaitInput::TimedOut]);
    assert!(done);
    assert_eq!(Ok(()), failed_jobs_outcome(0));
}

#[test]
fn enqueue_8_jobs_limited_size() {
    let mut reports: Vec<Received> = (0..8).map(|_| Received::Message(Event::Working)).collect();
    reports.push(Received::Message(Event::NoJobAvailable));
    let (res, _) = drive(8, reports);
    assert!(matches!(res, Some(Ok(8))));
    let (done, taken) = wait_for(8, (0..8).map(|_| WaitInput::Message(Event::Dummy)).collect());
    assert!(done);
    assert_eq!(8, taken);
    assert_eq!(Ok(()), failed_jobs_outcome(0));
}

#[test]
fn first_round_hands_out_the_whole_limit_then_one_per_started_job() {
    let mut state = RunState::new(3);
    assert_eq!(3, state.jobs_to_queue());
    assert_eq!(3, state.queue_jobs());
    assert_eq!(3, state.pending());
    assert_eq!(0, state.jobs_to_queue());
    assert!(state.receive(Received::Message(Event::Working)).is_none());
    assert_eq!(2, state.pending());
    assert_eq!(1, state.queued());
    assert_eq!(1, state.jobs_to_queue());
    assert_eq!(1, state.queue_jobs());
    assert_eq!(3, state.pending());
}

#[test]
fn disconnected_channel_is_no_message() {
    let (res, spawned) = drive(2, vec![Received::Disconnected]);
    assert!(matches!(res, Some(Err(FetchError::NoMessage))));
    assert_eq!(2, spawned);
}

#[test]
fn finished_report_ends_run_with_count() {
    let (res, _) = drive(
        2,
        vec![Received::Message(Event::Working), Received::Message(Event::Dummy)],
    );
    assert!(matches!(res, Some(Ok(1))));
}

#[test]
fn zero_limit_hands_out_nothing_and_times_out() {
    let (res, spawned) = drive(0, vec![Received::TimedOut]);
    assert!(matches!(res, Some(Err(FetchError::Timeout))));
    assert_eq!(0, spawned);
}

#[test]
fn wait_ends_when_queue_reported_empty() {
    let (done, taken) = wait_for(
        5,
        vec![WaitInput::Message(Event::Dummy), WaitInput::Message(Event::NoJobAvailable)],
    );
    assert!(done);
    assert_eq!(2, taken);
}

#[test]
fn wait_ignores_other_reports_and_closed_channel() {
    let mut wait = TaskWait::new(1);
    assert!(!wait.observe(WaitInput::Closed));
    assert!(!wait.observe(WaitInput::Message(Event::ErrorLoadingJob(sqlx::Error::RowNotFound))));
    assert!(!wait.is_finished());
    assert!(wait.observe(WaitInput::TimedOut));
    assert!(!wait.is_finished());
}

#[test]
fn wait_for_nothing_is_finished_at_once() {
    let (done, taken) = wait_for(0, vec![WaitInput::Message(Event::Dummy)]);
    assert!(done);
    assert_eq!(0, taken);
}

#[test]
fn empty_queue_is_reported() {
    let (event, fetched) = next_job_event(Ok(None));
    assert!(matches!(event, Event::NoJobAvailable));
    assert!(fetched.is_none());
}

#[test]
fn panic_message_formats() {
    assert_eq!("job panicked", panic_message(None));
    assert_eq!("job panicked: boom", panic_message(Some("boom")));
}

#[test]
fn settings_defaults() {
    let config = RunnerSettings::new().resolve(8);
    assert_eq!(8, config.max_tasks);
    assert_eq!(Timeout { secs: 5, nanos: 0 }, config.timeout);
    let config = RunnerSettings::new().num_threads(2).max_tasks(5).resolve(2);
    assert_eq!(5, config.max_tasks);
    let settings = RunnerSettings::new().num_threads(4);
    assert_eq!(Some(4), settings.num_threads);
    assert_eq!(None, settings.max_tasks);
}

#[test]
fn failed_jobs_outcome_values() {
    assert_eq!(Ok(()), failed_jobs_outcome(0));
    assert_eq!(Err(FailedJobsError::JobsFailed(1)), failed_jobs_outcome(1));
}
