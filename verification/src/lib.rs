//! Verified core of a background job queue backed by Postgres.

pub mod db;
pub mod error;
pub mod queue;
pub mod registry;
pub mod runner;

pub use crate::db::BackgroundJob;
pub use crate::error::{FailedJobsError, FetchError};
pub use crate::queue::Task;
pub use crate::registry::Registry;
pub use crate::runner::{Event, Received, RunState};
