//! The task as it is stored in and read back from the queue.

use vstd::prelude::*;

verus! {

/// The task that is inserted into and retrieved from the database.
pub struct Task {
    /// ID of the job.
    pub id: u32,
    /// Type of the job.
    pub job_type: String,
    /// MessagePack-encoded job data.
    pub data: Vec<u8>,
}

} // verus!
