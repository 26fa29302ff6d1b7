//! Search segments of a case: their area, the team assigned, the probability
//! of detection and the search status. The area and score are carried as the
//! caller's own values (`G`, `S`).
use vstd::prelude::*;
use crate::roster::{fresh_member_id, SegmentStatus};

verus! {

/// A search segment.
pub struct SearchSegment<G, S> {
    pub id: u128,
    pub polygon: G,
    pub assigned_team: Option<u128>,
    pub pod_score: S,
    pub status: SegmentStatus,
}

/// The fields a segment update changes: each present one replaces the
/// segment's, the others stay.
pub struct SegmentUpdate<S> {
    pub status: Option<SegmentStatus>,
    pub assigned_team: Option<u128>,
    pub pod_score: Option<S>,
}

/// Why a segment request is refused.
#[derive(Debug, Clone, Copy, PartialEq, Eq, Structural)]
pub enum SegmentError {
    /// No segment carries the identifier.
    NotFound,
}

/// The segments of the board, in the order they were created.
pub struct SegmentBoard<G, S> {
    pub segments: Vec<SearchSegment<G, S>>,
}

/// Position of the first segment carrying `id`.
pub open spec fn first_segment<G, S>(segs: Seq<SearchSegment<G, S>>, id: u128) -> Option<int>
    decreases segs.len(),
{
    if segs.len() == 0 {
        None
    } else {
        match first_segment(segs.drop_last(), id) {
            Some(i) => Some(i),
            None => if segs.last().id == id {
                Some(segs.len() - 1)
            } else {
                None
            },
        }
    }
}

/// A segment with an update applied.
pub open spec fn updated<G, S>(s: SearchSegment<G, S>, u: SegmentUpdate<S>) -> SearchSegment<G, S> {
    SearchSegment {
        id: s.id,
        polygon: s.polygon,
        assigned_team: match u.assigned_team {
            Some(t) => Some(t),
            None => s.assigned_team,
        },
        pod_score: match u.pod_score {
            Some(p) => p,
            None => s.pod_score,
        },
        status: match u.status {
            Some(st) => st,
            None => s.status,
        },
    }
}

proof fn lemma_first_segment<G, S>(segs: Seq<SearchSegment<G, S>>, id: u128, i: int)
    requires
        0 <= i < segs.len(),
        segs[i].id == id,
        forall|j: int| 0 <= j < i ==> segs[j].id != id,
    ensures
        first_segment(segs, id) == Some(i),
    decreases segs.len(),
{
    if segs.len() - 1 > i {
        assert(segs.drop_last()[i] == segs[i]);
        assert forall|j: int| 0 <= j < i implies segs.drop_last()[j].id != id by {
            assert(segs.drop_last()[j] == segs[j]);
        }
        lemma_first_segment(segs.drop_last(), id, i);
    } else {
        assert forall|j: int| 0 <= j < segs.drop_last().len() implies segs.drop_last()[j].id != id by {
            assert(segs.drop_last()[j] == segs[j]);
        }
        lemma_no_segment(segs.drop_last(), id);
    }
}

proof fn lemma_no_segment<G, S>(segs: Seq<SearchSegment<G, S>>, id: u128)
    requires
        forall|j: int| 0 <= j < segs.len() ==> segs[j].id != id,
    ensures
        first_segment(segs, id) is None,
    decreases segs.len(),
{
    if segs.len() > 0 {
        assert forall|j: int| 0 <= j < segs.drop_last().len() implies segs.drop_last()[j].id != id by {
            assert(segs.drop_last()[j] == segs[j]);
        }
        lemma_no_segment(segs.drop_last(), id);
    }
}

impl<G, S> SegmentBoard<G, S> {
    /// An empty board.
    pub fn new() -> (r: SegmentBoard<G, S>)
        ensures
            r.segments@.len() == 0,
    {
        SegmentBoard { segments: Vec::new() }
    }

    /// Adds an unsearched, unassigned segment under the given identifier.
    pub fn create_with_id(&mut self, id: u128, polygon: G, pod_score: S)
        ensures
            final(self).segments@ == old(self).segments@.push(
                SearchSegment { id, polygon, assigned_team: None, pod_score, status: SegmentStatus::Unsearched },
            ),
    {
        self.segments.push(
            SearchSegment { id, polygon, assigned_team: None, pod_score, status: SegmentStatus::Unsearched },
        );
    }

    /// Adds an unsearched, unassigned segment under a fresh random identifier,
    /// which it returns.
    pub fn create_segment(&mut self, polygon: G, pod_score: S) -> (id: u128)
        ensures
            final(self).segments@ == old(self).segments@.push(
                SearchSegment { id, polygon, assigned_team: None, pod_score, status: SegmentStatus::Unsearched },
            ),
    {
        let id = fresh_member_id();
        self.create_with_id(id, polygon, pod_score);
        id
    }

    /// Every segment, in creation order.
    pub fn list_segments(&self) -> (r: &Vec<SearchSegment<G, S>>)
        ensures
            r@ == self.segments@,
    {
        &self.segments
    }

    /// Applies an update to the first segment carrying `id` and returns it;
    /// `NotFound` (and no change) where none does.
    pub fn update_segment(&mut self, id: u128, update: SegmentUpdate<S>) -> (r: Result<&SearchSegment<G, S>, SegmentError>)
        ensures
            match first_segment(old(self).segments@, id) {
                Some(i) => final(self).segments@ == old(self).segments@.update(i, updated(old(self).segments@[i], update))
                    && (r matches Ok(s) && *s == final(self).segments@[i]),
                None => final(self).segments@ == old(self).segments@ && r == Err::<&SearchSegment<G, S>, SegmentError>(
                    SegmentError::NotFound,
                ),
            },
    {
        let mut i: usize = 0;
        while i < self.segments.len()
            invariant
                i <= self.segments.len(),
                self.segments@ == old(self).segments@,
                forall|j: int| 0 <= j < i ==> self.segments@[j].id != id,
            decreases self.segments.len() - i,
        {
            if self.segments[i].id == id {
                proof {
                    lemma_first_segment(self.segments@, id, i as int);
                }
                let ghost before = self.segments@;
                let seg = self.segments.remove(i);
                let SearchSegment { id: sid, polygon, assigned_team, pod_score, status } = seg;
                let SegmentUpdate { status: new_status, assigned_team: new_team, pod_score: new_score } = update;
                let next = SearchSegment {
                    id: sid,
                    polygon,
                    assigned_team: match new_team {
                        Some(t) => Some(t),
                        None => assigned_team,
                    },
                    pod_score: match new_score {
                        Some(p) => p,
                        None => pod_score,
                    },
                    status: match new_status {
                        Some(st) => st,
                        None => status,
                    },
                };
                self.segments.insert(i, next);
                assert(self.segments@ =~= before.update(i as int, updated(before[i as int], update)));
                return Ok(&self.segments[i]);
            }
            i = i + 1;
        }
        proof {
            lemma_no_segment(self.segments@, id);
        }
        Err(SegmentError::NotFound)
    }
}

/// An update changes only the fields it carries, and only on the segment it
/// names: reading the segment back gives the new values.
pub proof fn lemma_segment_update_read_back<G, S>(segs: Seq<SearchSegment<G, S>>, id: u128, u: SegmentUpdate<S>)
    requires
        first_segment(segs, id) is Some,
    ensures
        ({
            let i = first_segment(segs, id)->0;
            let after = segs.update(i, updated(segs[i], u));
            &&& after.len() == segs.len()
            &&& after[i].id == id
            &&& u.status matches Some(st) ==> after[i].status == st
            &&& u.assigned_team matches Some(t) ==> after[i].assigned_team == Some(t)
            &&& u.pod_score is None ==> after[i].pod_score == segs[i].pod_score
            &&& after[i].polygon == segs[i].polygon
            &&& forall|j: int| 0 <= j < segs.len() && j != i ==> after[j] == segs[j]
        }),
{
    lemma_first_segment_valid(segs, id);
}

proof fn lemma_first_segment_valid<G, S>(segs: Seq<SearchSegment<G, S>>, id: u128)
    requires
        first_segment(segs, id) is Some,
    ensures
        0 <= first_segment(segs, id)->0 < segs.len(),
        segs[first_segment(segs, id)->0].id == id,
    decreases segs.len(),
{
    if segs.len() > 0 {
        if first_segment(segs.drop_last(), id) is Some {
            lemma_first_segment_valid(segs.drop_last(), id);
        }
    }
}

} // verus!
