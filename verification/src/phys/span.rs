use super::fixed::{Fixed, LIMIT};
use crate::clock::Span;
use vstd::prelude::*;

verus! {

/// A span of time in fixed-point seconds, rounded down; one that is too long
/// counts as the longest that [`Fixed`] holds.
pub open spec fn whole_seconds(d: Span) -> Fixed {
    if d.whole_millis() > LIMIT {
        LIMIT
    } else {
        d.whole_millis() as i64
    }
}

/// Converts a span of time to fixed-point seconds.
pub fn seconds(d: Span) -> (r: Fixed)
    ensures
        r == whole_seconds(d),
{
    let ms: u128 = d.as_millis();
    if ms > LIMIT as u128 {
        LIMIT
    } else {
        ms as i64
    }
}

} // verus!
