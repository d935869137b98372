//! Reading the time that has passed since the start of a sweep.

use crate::duration::Duration;
use std::time::Instant;
use vstd::prelude::*;

verus! {

/// `std::time::Instant`, a reading of the clock: carried about, never
/// looked into.
#[verifier::external_type_specification]
#[verifier::external_body]
pub struct ExInstant(std::time::Instant);

/// `Instant::elapsed`, taken apart with `Duration::as_secs` and
/// `Duration::subsec_nanos`. What the clock reads is not a matter of the
/// argument; all that is claimed is that the second part is below one
/// second, as `subsec_nanos` documents.
#[verifier::external_body]
fn elapsed_parts(since: &Instant) -> (parts: (u64, u32))
    ensures
        parts.1 < 1_000_000_000,
{
    let passed = since.elapsed();
    (passed.as_secs(), passed.subsec_nanos())
}

/// The time that has passed since `since`, as the clock reads it now.
pub(crate) fn elapsed(since: &Instant) -> Duration {
    let parts = elapsed_parts(since);
    Duration::from_parts(parts.0, parts.1)
}

} // verus!
