//! Error types of the job queue.

use vstd::prelude::*;

verus! {

/// `sqlx::Error`, the error that the Postgres driver reports. Declared opaque:
/// nothing is claimed about its contents; the library only passes it on.
#[verifier::external_type_specification]
#[verifier::external_body]
pub struct ExSqlxError(sqlx::Error);

/// Why the runner stopped fetching jobs.
#[derive(Debug)]
pub enum FetchError {
    /// No worker answered before the channel closed.
    NoMessage,
    /// The timeout ran out while waiting for a worker to report.
    Timeout,
    /// A worker could not load its job from storage.
    FailedLoadingJob(sqlx::Error),
}

/// Jobs that failed when the runner checked the queue.
#[derive(Debug, PartialEq, Eq, Structural)]
pub enum FailedJobsError {
    /// Number of jobs that failed to run.
    JobsFailed(i64),
}

/// The outcome of counting the failed jobs: `Ok` when none failed, else the count.
pub fn failed_jobs_outcome(num_failed: i64) -> (res: Result<(), FailedJobsError>)
    ensures
        num_failed == 0 ==> res == Ok::<(), FailedJobsError>(()),
        num_failed != 0 ==> res == Err::<(), FailedJobsError>(FailedJobsError::JobsFailed(num_failed)),
{
    if num_failed == 0 {
        Ok(())
    } else {
        Err(FailedJobsError::JobsFailed(num_failed))
    }
}

} // verus!
