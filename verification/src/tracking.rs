//! Position histories of responders: each responder's most recent fixes,
//! oldest first, at most `MAX_TRACK_POINTS` of them.
use vstd::prelude::*;
use std::collections::HashMap;

verus! {

broadcast use vstd::std_specs::hash::group_hash_axioms;

/// How many fixes a responder's history keeps.
pub const MAX_TRACK_POINTS: usize = 100;

/// A history after a new fix: the fix is appended and, when that makes the
/// history too long, the oldest fix is dropped.
pub open spec fn bounded_push<T>(h: Seq<T>, p: T) -> Seq<T> {
    let longer = h.push(p);
    if longer.len() > MAX_TRACK_POINTS {
        longer.drop_first()
    } else {
        longer
    }
}

/// The fix histories of the responders, by responder id.
pub struct Tracker<T> {
    pub positions: HashMap<u128, Vec<T>>,
}

impl<T> Tracker<T> {
    /// Each responder's history as a sequence.
    pub closed spec fn view(&self) -> Map<u128, Seq<T>> {
        self.positions@.map_values(|v: Vec<T>| v@)
    }

    /// No histories yet.
    pub fn new() -> (r: Tracker<T>)
        ensures
            r.view() == Map::<u128, Seq<T>>::empty(),
    {
        let r = Tracker { positions: HashMap::new() };
        assert(r.view() =~= Map::<u128, Seq<T>>::empty());
        r
    }

    /// Records a new fix for a responder (starting a history when it has none).
    pub fn update_location(&mut self, member: u128, point: T)
        ensures
            final(self).view() == old(self).view().insert(
                member,
                bounded_push(
                    if old(self).view().contains_key(member) {
                        old(self).view()[member]
                    } else {
                        Seq::empty()
                    },
                    point,
                ),
            ),
    {
        let ghost before = self.view();
        let mut history = match self.positions.remove(&member) {
            Some(h) => h,
            None => Vec::new(),
        };
        let ghost prior = history@;
        assert(prior == (if before.contains_key(member) { before[member] } else { Seq::<T>::empty() }));
        history.push(point);
        if history.len() > MAX_TRACK_POINTS {
            history.remove(0);
            assert(history@ =~= prior.push(point).drop_first());
        }
        let ghost after = history@;
        self.positions.insert(member, history);
        assert(self.view() =~= before.insert(member, after));
    }

    /// The history of a responder, if it has one.
    pub fn get_history(&self, member: u128) -> (r: Option<&Vec<T>>)
        ensures
            match r {
                Some(h) => self.view().contains_key(member) && h@ == self.view()[member],
                None => !self.view().contains_key(member),
            },
    {
        self.positions.get(&member)
    }
}

/// A history never grows past `MAX_TRACK_POINTS`, and the newest fix is last.
pub proof fn lemma_history_bounded<T>(h: Seq<T>, p: T)
    requires
        h.len() <= MAX_TRACK_POINTS,
    ensures
        bounded_push(h, p).len() <= MAX_TRACK_POINTS,
        bounded_push(h, p).last() == p,
        h.len() < MAX_TRACK_POINTS ==> bounded_push(h, p) == h.push(p),
{
}

} // verus!
