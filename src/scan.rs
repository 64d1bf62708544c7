//! Which block heights a scan covers, batch by batch.
use vstd::prelude::*;

verus! {

/// How many blocks a scan without a node covers.
pub const MOCK_SPAN: u64 = 10;

/// The first height to scan: resuming is not supported yet and starts from
/// genesis; otherwise the requested height, or genesis.
pub fn start_height(resume: bool, start_block: Option<u64>) -> (r: u64)
    ensures
        resume ==> r == 0,
        !resume ==> r == match start_block {
            Some(h) => h,
            None => 0,
        },
{
    if resume {
        0
    } else {
        match start_block {
            Some(h) => h,
            None => 0,
        }
    }
}

/// The end of a scan without a node: `MOCK_SPAN` blocks past the start,
/// capped at the largest height.
pub fn mock_end(start: u64) -> (r: u64)
    ensures
        r == if start as int + MOCK_SPAN as int <= u64::MAX as int { (start + MOCK_SPAN) as u64 } else { u64::MAX },
{
    start.saturating_add(MOCK_SPAN)
}

/// The next batch of heights `[from, to)` after `current`: at most
/// `batch_size` blocks and never past `latest`; none once `current` has
/// reached `latest`.
pub fn next_batch(current: u64, latest: u64, batch_size: u64) -> (r: Option<(u64, u64)>)
    requires
        batch_size > 0,
    ensures
        current >= latest ==> r.is_none(),
        current < latest ==> r == Some((current, if latest - current <= batch_size { latest } else { (current + batch_size) as u64 })),
{
    if current >= latest {
        None
    } else if latest - current <= batch_size {
        Some((current, latest))
    } else {
        Some((current, current + batch_size))
    }
}

} // verus!
