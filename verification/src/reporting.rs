//! The platform's reporting totals.
use vstd::prelude::*;
use crate::roster::CaseStatus;

verus! {

/// The cases among `statuses` that are active.
pub open spec fn active_count(statuses: Seq<CaseStatus>) -> nat
    decreases statuses.len(),
{
    if statuses.len() == 0 {
        0
    } else {
        active_count(statuses.drop_last()) + if statuses.last() == CaseStatus::Active { 1nat } else { 0nat }
    }
}

/// The reporting totals: every case, the active cases, and every segment.
pub fn case_stats(statuses: &Vec<CaseStatus>, n_segments: usize) -> (r: (usize, usize, usize))
    ensures
        r == (statuses.len(), active_count(statuses@) as usize, n_segments),
        active_count(statuses@) <= statuses.len(),
{
    let mut active: usize = 0;
    let mut i: usize = 0;
    while i < statuses.len()
        invariant
            i <= statuses.len(),
            active == active_count(statuses@.take(i as int)),
            active <= i,
        decreases statuses.len() - i,
    {
        assert(statuses@.take(i + 1).drop_last() =~= statuses@.take(i as int));
        if statuses[i] == CaseStatus::Active {
            active = active + 1;
        }
        i = i + 1;
    }
    assert(statuses@.take(statuses.len() as int) =~= statuses@);
    (statuses.len(), active, n_segments)
}
} // verus!
