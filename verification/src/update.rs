//! The update job's decisions.
//!
//! Update forwards health samples the way push forwards measurements: read
//! the watermark of the most recent successful update log, fetch the next
//! batch of health rows, post them, and always log the attempt under the
//! update kind. The watermark and batch functions are shared with the push
//! job; the health payload shaping is here.

use vstd::prelude::*;

use crate::cloud::Health;
use crate::push::BATCH_LIMIT;
use crate::store::Measurement;

verus! {

/// Shape stored health rows into the cloud's payload rows, in order.
pub fn to_cloud_health(rows: &Vec<Measurement>) -> (r: Vec<Health>)
    ensures
        r@.len() == rows@.len(),
        forall|i: int|
            0 <= i < rows@.len() ==> (#[trigger] r@[i]).device_id@ == rows@[i].source@
                && r@[i].timestamp_ms == rows@[i].timestamp_ms && r@[i].data@ == rows@[i].data@,
{
    let mut r: Vec<Health> = Vec::new();
    let mut i: usize = 0;
    while i < rows.len()
        invariant
            i <= rows@.len(),
            r@.len() == i,
            forall|k: int|
                0 <= k < i ==> (#[trigger] r@[k]).device_id@ == rows@[k].source@
                    && r@[k].timestamp_ms == rows@[k].timestamp_ms && r@[k].data@ == rows@[k].data@,
        decreases rows@.len() - i,
    {
        let row = &rows[i];
        r.push(
            Health {
                device_id: row.source.clone(),
                timestamp_ms: row.timestamp_ms,
                data: row.data.clone(),
            },
        );
        i = i + 1;
    }
    r
}

/// The update job: forwards health samples and logs every attempt.
pub struct Process {
    pub batch_limit: usize,
}

impl Process {
    pub fn new() -> (p: Process)
        ensures
            p.batch_limit == BATCH_LIMIT,
    {
        Process { batch_limit: BATCH_LIMIT }
    }
}

} // verus!
