//! Search-and-rescue case vocabulary and the roster of responders.
//!
//! Responders are kept in arrival order; an identifier names at most the first
//! responder that carries it.
use vstd::prelude::*;

verus! {

/// State of a search-and-rescue case.
#[derive(Debug, Clone, Copy, PartialEq, Eq, Structural)]
pub enum CaseStatus {
    Active,
    Suspended,
    Closed,
    Cancelled,
}

/// Urgency of a case.
#[derive(Debug, Clone, Copy, PartialEq, Eq, Structural)]
pub enum Priority {
    Low,
    Medium,
    High,
    Critical,
}

/// Progress of the search in one segment.
#[derive(Debug, Clone, Copy, PartialEq, Eq, Structural)]
pub enum SegmentStatus {
    Unsearched,
    InProgress,
    Completed,
    Failed,
}

/// What a responder does in the field.
#[derive(Debug, Clone, Copy, PartialEq, Eq, Structural)]
pub enum ResponderRole {
    TeamLeader,
    FieldSearcher,
    K9Handler,
    DroneOperator,
    Medical,
    Communications,
}

/// Availability of a responder.
#[derive(Debug, Clone, Copy, PartialEq, Eq, Structural)]
pub enum ResponderStatus {
    Available,
    Deployed,
    OffDuty,
    Standby,
}

/// A request to change a responder's availability.
#[derive(Debug, Clone, Copy, PartialEq, Eq, Structural)]
pub struct StatusUpdate {
    pub status: ResponderStatus,
}

/// A request to add a responder.
#[derive(Debug, Clone)]
pub struct CreateMemberRequest {
    pub name: String,
    pub role: ResponderRole,
    pub callsign: String,
    pub status: ResponderStatus,
}

/// A request to set a responder's availability.
#[derive(Debug, Clone, Copy, PartialEq, Eq, Structural)]
pub struct UpdateStatusRequest {
    pub status: ResponderStatus,
}

/// A responder on the roster.
#[derive(Debug, Clone)]
pub struct TeamMember {
    pub id: u128,
    pub name: String,
    pub role: ResponderRole,
    pub callsign: String,
    pub status: ResponderStatus,
}

/// The reason a roster request is refused.
#[derive(Debug, Clone, Copy, PartialEq, Eq, Structural)]
pub enum RosterError {
    /// No responder carries the identifier.
    NotFound,
}

/// A responder as plain values.
pub struct MemberView {
    pub id: u128,
    pub name: Seq<char>,
    pub role: ResponderRole,
    pub callsign: Seq<char>,
    pub status: ResponderStatus,
}

impl TeamMember {
    pub open spec fn view(&self) -> MemberView {
        MemberView {
            id: self.id,
            name: self.name@,
            role: self.role,
            callsign: self.callsign@,
            status: self.status,
        }
    }
}

/// The responders of the service, in the order they were added.
pub struct Roster {
    pub members: Vec<TeamMember>,
}

/// Position of the first responder carrying `id`, if any.
pub open spec fn first_with_id(ms: Seq<TeamMember>, id: u128) -> Option<int> {
    if exists|i: int| 0 <= i < ms.len() && ms[i].id == id {
        Some(choose|i: int| 0 <= i < ms.len() && ms[i].id == id && forall|j: int| 0 <= j < i ==> ms[j].id != id)
    } else {
        None
    }
}

pub open spec fn has_id(ms: Seq<TeamMember>, id: u128) -> bool {
    exists|i: int| 0 <= i < ms.len() && ms[i].id == id
}

/// The responders other than those carrying `id`, in order.
pub open spec fn without_id(ms: Seq<TeamMember>, id: u128) -> Seq<TeamMember>
    decreases ms.len(),
{
    if ms.len() == 0 {
        Seq::empty()
    } else {
        let prev = without_id(ms.drop_last(), id);
        if ms.last().id != id {
            prev.push(ms.last())
        } else {
            prev
        }
    }
}

/// `m` with its availability replaced.
pub open spec fn with_status(m: TeamMember, status: ResponderStatus) -> TeamMember {
    TeamMember { id: m.id, name: m.name, role: m.role, callsign: m.callsign, status }
}

/// The roster after setting the availability of the first responder carrying `id`.
pub open spec fn status_set(ms: Seq<TeamMember>, id: u128, status: ResponderStatus) -> Seq<TeamMember> {
    match first_with_id(ms, id) {
        Some(i) => ms.update(i, with_status(ms[i], status)),
        None => ms,
    }
}

proof fn lemma_first_with_id(ms: Seq<TeamMember>, id: u128, i: int)
    requires
        0 <= i < ms.len(),
        ms[i].id == id,
        forall|j: int| 0 <= j < i ==> ms[j].id != id,
    ensures
        first_with_id(ms, id) == Some(i),
{
    let k = choose|k: int| 0 <= k < ms.len() && ms[k].id == id && forall|j: int| 0 <= j < k ==> ms[j].id != id;
    assert(k == i) by {
        if k < i {
        } else if k > i {
        }
    }
}

proof fn lemma_first_index(ms: Seq<TeamMember>, id: u128) -> (i: int)
    requires
        has_id(ms, id),
    ensures
        0 <= i < ms.len(),
        ms[i].id == id,
        forall|j: int| 0 <= j < i ==> ms[j].id != id,
    decreases ms.len(),
{
    let p = ms.drop_last();
    if has_id(p, id) {
        let i = lemma_first_index(p, id);
        assert forall|j: int| 0 <= j < i implies ms[j].id != id by {
            assert(ms[j] == p[j]);
        }
        i
    } else {
        let k = choose|k: int| 0 <= k < ms.len() && ms[k].id == id;
        assert forall|j: int| 0 <= j < ms.len() - 1 implies ms[j].id != id by {
            assert(ms[j] == p[j]);
        }
        assert(k == ms.len() - 1);
        ms.len() - 1
    }
}

proof fn lemma_without_id_has_none(ms: Seq<TeamMember>, id: u128)
    ensures
        !has_id(without_id(ms, id), id),
    decreases ms.len(),
{
    if ms.len() > 0 {
        lemma_without_id_has_none(ms.drop_last(), id);
        let prev = without_id(ms.drop_last(), id);
        if ms.last().id != id {
            assert forall|i: int| 0 <= i < prev.push(ms.last()).len() implies prev.push(ms.last())[i].id != id by {
                if i < prev.len() {
                    assert(!(prev[i].id == id));
                }
            }
        }
    }
}

proof fn lemma_without_id_len(ms: Seq<TeamMember>, id: u128)
    ensures
        without_id(ms, id).len() <= ms.len(),
        without_id(ms, id).len() == ms.len() <==> !has_id(ms, id),
    decreases ms.len(),
{
    if ms.len() > 0 {
        lemma_without_id_len(ms.drop_last(), id);
        if has_id(ms.drop_last(), id) {
            let i = choose|i: int| 0 <= i < ms.drop_last().len() && ms.drop_last()[i].id == id;
            assert(ms[i].id == id);
        }
        if has_id(ms, id) && ms.last().id != id {
            let i = choose|i: int| 0 <= i < ms.len() && ms[i].id == id;
            assert(ms.drop_last()[i].id == id);
        }
    }
}

/// A fresh random identifier (`uuid::Uuid::new_v4().as_u128()`); nothing is
/// claimed of its value: it is random.
#[verifier::external_body]
pub(crate) fn fresh_member_id() -> (r: u128) {
    uuid::Uuid::new_v4().as_u128()
}

impl Roster {
    pub fn new() -> (r: Roster)
        ensures
            r.members@.len() == 0,
    {
        Roster { members: Vec::new() }
    }

    /// Adds a responder with the given identifier at the end of the roster and
    /// returns a copy of it.
    pub fn create_with_id(&mut self, id: u128, req: CreateMemberRequest) -> (r: TeamMember)
        ensures
            r.view() == (MemberView {
                id,
                name: req.name@,
                role: req.role,
                callsign: req.callsign@,
                status: req.status,
            }),
            final(self).members@ == old(self).members@.push(r),
    {
        let name2 = req.name.clone();
        let callsign2 = req.callsign.clone();
        let stored = TeamMember { id, name: req.name, role: req.role, callsign: req.callsign, status: req.status };
        self.members.push(stored);
        TeamMember { id, name: name2, role: req.role, callsign: callsign2, status: req.status }
    }

    /// Adds a responder under a fresh random identifier.
    pub fn create_member(&mut self, req: CreateMemberRequest) -> (r: TeamMember)
        ensures
            r.name@ == req.name@ && r.role == req.role && r.callsign@ == req.callsign@ && r.status == req.status,
            final(self).members@ == old(self).members@.push(r),
    {
        let id = fresh_member_id();
        self.create_with_id(id, req)
    }

    /// Every responder, in the order they were added.
    pub fn list_members(&self) -> (r: &Vec<TeamMember>)
        ensures
            r@ == self.members@,
    {
        &self.members
    }

    /// The first responder carrying `id`.
    pub fn get(&self, id: u128) -> (r: Option<&TeamMember>)
        ensures
            match first_with_id(self.members@, id) {
                Some(i) => r == Some(&self.members@[i]),
                None => r is None,
            },
    {
        let mut i: usize = 0;
        while i < self.members.len()
            invariant
                i <= self.members.len(),
                forall|j: int| 0 <= j < i ==> self.members@[j].id != id,
            decreases self.members.len() - i,
        {
            if self.members[i].id == id {
                proof {
                    lemma_first_with_id(self.members@, id, i as int);
                }
                return Some(&self.members[i]);
            }
            i = i + 1;
        }
        None
    }

    /// Sets the availability of the first responder carrying `id`; `NotFound`
    /// (and no change) where none does.
    #[verifier::rlimit(30)]
    pub fn update_member_status(&mut self, id: u128, status: ResponderStatus) -> (r: Result<(), RosterError>)
        ensures
            r is Ok <==> has_id(old(self).members@, id),
            final(self).members@ == status_set(old(self).members@, id, status),
    {
        let mut i: usize = 0;
        while i < self.members.len()
            invariant
                i <= self.members.len(),
                self.members@ == old(self).members@,
                forall|j: int| 0 <= j < i ==> self.members@[j].id != id,
            decreases self.members.len() - i,
        {
            if self.members[i].id == id {
                proof {
                    lemma_first_with_id(self.members@, id, i as int);
                }
                let mut m = self.members.remove(i);
                m.status = status;
                self.members.insert(i, m);
                assert(self.members@ =~= status_set(old(self).members@, id, status));
                return Ok(());
            }
            i = i + 1;
        }
        Err(RosterError::NotFound)
    }

    /// Removes every responder carrying `id`; `NotFound` where none did.
    #[verifier::rlimit(30)]
    pub fn delete_member(&mut self, id: u128) -> (r: Result<(), RosterError>)
        ensures
            r is Ok <==> has_id(old(self).members@, id),
            final(self).members@ == without_id(old(self).members@, id),
    {
        let ghost before = self.members@;
        let mut kept: Vec<TeamMember> = Vec::new();
        let n = self.members.len();
        let mut i: usize = 0;
        while i < n
            invariant
                n == before.len(),
                self.members@ == before,
                i <= n,
                kept@ == without_id(before.take(i as int), id),
            decreases n - i,
        {
            assert(before.take(i + 1).drop_last() =~= before.take(i as int));
            if self.members[i].id != id {
                let m = TeamMember {
                    id: self.members[i].id,
                    name: self.members[i].name.clone(),
                    role: self.members[i].role,
                    callsign: self.members[i].callsign.clone(),
                    status: self.members[i].status,
                };
                assert(m == before[i as int]);
                kept.push(m);
            }
            i = i + 1;
        }
        assert(before.take(n as int) =~= before);
        proof {
            lemma_without_id_len(before, id);
        }
        let removed = kept.len() < n;
        self.members = kept;
        if removed {
            Ok(())
        } else {
            Err(RosterError::NotFound)
        }
    }
}

/// A read after a successful write gives back what was written: once the
/// availability of `id` is set, the responder found under `id` has it, and
/// every other position is unchanged.
pub proof fn lemma_status_read_after_write(ms: Seq<TeamMember>, id: u128, status: ResponderStatus)
    requires
        has_id(ms, id),
    ensures
        first_with_id(status_set(ms, id, status), id) == first_with_id(ms, id),
        status_set(ms, id, status)[first_with_id(ms, id)->0].status == status,
        status_set(ms, id, status).len() == ms.len(),
        forall|j: int| 0 <= j < ms.len() && Some(j) != first_with_id(ms, id) ==> status_set(ms, id, status)[j] == ms[j],
{
    let i = lemma_first_index(ms, id);
    lemma_first_with_id(ms, id, i);
    let u = ms.update(i, with_status(ms[i], status));
    assert(status_set(ms, id, status) == u);
    assert forall|j: int| 0 <= j < i implies u[j].id != id by {
        assert(u[j] == ms[j]);
    }
    lemma_first_with_id(u, id, i);
}

/// After a deletion no responder carries the identifier, and a deletion removes
/// something exactly when a responder carried it.
pub proof fn lemma_delete_removes_all(ms: Seq<TeamMember>, id: u128)
    ensures
        !has_id(without_id(ms, id), id),
        first_with_id(without_id(ms, id), id) is None,
        without_id(ms, id).len() < ms.len() <==> has_id(ms, id),
{
    lemma_without_id_has_none(ms, id);
    lemma_without_id_len(ms, id);
}

} // verus!
