//! Triple-lock fusion: a candidate is trusted only where independent sensor
//! families agree at the same place.
//!
//! Hits are grouped greedily: each hit not yet taken seeds a group and takes
//! every later hit not yet taken that lies near it; a group locks when it holds
//! enough distinct families. Nearness is decided by the caller from the hits'
//! positions.
use vstd::prelude::*;
use crate::text::{contains, contains_str, to_lowercase, lowercase_of};

verus! {

/// Independent sensor families.
#[derive(Debug, Clone, Copy, PartialEq, Eq, Structural)]
pub enum SensorFamily {
    Thermal,
    Sar,
    Optical,
    Glint,
    Temporal,
}

pub open spec fn family_name(f: SensorFamily) -> Seq<char> {
    match f {
        SensorFamily::Thermal => "thermal"@,
        SensorFamily::Sar => "sar"@,
        SensorFamily::Optical => "optical"@,
        SensorFamily::Glint => "glint"@,
        SensorFamily::Temporal => "temporal"@,
    }
}

/// The family of a lower-cased signal name; unknown names are optical.
pub open spec fn family_of_lowercase(c: Seq<char>) -> SensorFamily {
    if contains(c, "thermal"@) || contains(c, "cold_sink"@) || contains(c, "coldsink"@) || contains(
        c,
        "heat_sink"@,
    ) || contains(c, "heatsink"@) || contains(c, "ecostress"@) {
        SensorFamily::Thermal
    } else if contains(c, "sar"@) || contains(c, "backscatter"@) || contains(c, "coherence"@) {
        SensorFamily::Sar
    } else if contains(c, "temporal"@) || contains(c, "persistence"@) {
        SensorFamily::Temporal
    } else if contains(c, "glint"@) || contains(c, "roughness"@) {
        SensorFamily::Glint
    } else {
        SensorFamily::Optical
    }
}

/// The tunable z-score threshold a family's hits must clear.
#[derive(Debug, Clone, Copy, PartialEq, Eq, Structural)]
pub enum ThresholdKnob {
    ThermalZ,
    SarZ,
    OpticalZ,
    TemporalZ,
}

/// Glint shares the optical threshold: it is the same passive-optical physics.
pub open spec fn threshold_knob_of(f: SensorFamily) -> ThresholdKnob {
    match f {
        SensorFamily::Thermal => ThresholdKnob::ThermalZ,
        SensorFamily::Sar => ThresholdKnob::SarZ,
        SensorFamily::Optical => ThresholdKnob::OpticalZ,
        SensorFamily::Glint => ThresholdKnob::OpticalZ,
        SensorFamily::Temporal => ThresholdKnob::TemporalZ,
    }
}

impl SensorFamily {
    /// The knob that holds this family's threshold (see `threshold_knob_of`).
    pub fn threshold_knob(self) -> (r: ThresholdKnob)
        ensures
            r == threshold_knob_of(self),
    {
        match self {
            SensorFamily::Thermal => ThresholdKnob::ThermalZ,
            SensorFamily::Sar => ThresholdKnob::SarZ,
            SensorFamily::Optical => ThresholdKnob::OpticalZ,
            SensorFamily::Glint => ThresholdKnob::OpticalZ,
            SensorFamily::Temporal => ThresholdKnob::TemporalZ,
        }
    }

    pub fn as_str(self) -> (r: &'static str)
        ensures
            r@ == family_name(self),
    {
        match self {
            SensorFamily::Thermal => "thermal",
            SensorFamily::Sar => "sar",
            SensorFamily::Optical => "optical",
            SensorFamily::Glint => "glint",
            SensorFamily::Temporal => "temporal",
        }
    }

    /// The sensor family of a concept or signal name, in any case.
    pub fn classify(concept: &str) -> (r: SensorFamily)
        ensures
            r == family_of_lowercase(lowercase_of(concept@)),
    {
        let c = to_lowercase(concept);
        Self::classify_lowercase(&c)
    }

    /// The sensor family of an already lower-cased signal name.
    pub fn classify_lowercase(c: &Vec<char>) -> (r: SensorFamily)
        ensures
            r == family_of_lowercase(c@),
    {
        if contains_str(c, "thermal") || contains_str(c, "cold_sink") || contains_str(c, "coldsink")
            || contains_str(c, "heat_sink") || contains_str(c, "heatsink") || contains_str(c, "ecostress") {
            SensorFamily::Thermal
        } else if contains_str(c, "sar") || contains_str(c, "backscatter") || contains_str(c, "coherence") {
            SensorFamily::Sar
        } else if contains_str(c, "temporal") || contains_str(c, "persistence") {
            SensorFamily::Temporal
        } else if contains_str(c, "glint") || contains_str(c, "roughness") {
            SensorFamily::Glint
        } else {
            SensorFamily::Optical
        }
    }
}

// ── Greedy grouping ─────────────────────────────────────────────────────────

/// A group of hits that locked: its members (seed first, then ascending) and the
/// distinct families among them in order of first appearance.
#[derive(Debug, Clone)]
pub struct LockGroup {
    pub members: Vec<usize>,
    pub families: Vec<SensorFamily>,
}

/// `near` is an `n × n` relation.
pub open spec fn square(near: Seq<Seq<bool>>, n: nat) -> bool {
    near.len() == n && forall|i: int| 0 <= i < n ==> #[trigger] near[i].len() == n
}

/// Which hits are taken once the seeds before `s` have grouped.
pub open spec fn taken_before(near: Seq<Seq<bool>>, n: nat, s: int) -> Seq<bool>
    decreases s,
{
    if s <= 0 {
        Seq::new(n, |k: int| false)
    } else {
        let u = taken_before(near, n, s - 1);
        let p = s - 1;
        if u[p] {
            u
        } else {
            Seq::new(n, |k: int| u[k] || k == p || (k > p && near[p][k]))
        }
    }
}

/// The hits in `lo..hi` not taken under `u` and near seed `s`, ascending.
pub open spec fn joiners(near: Seq<Seq<bool>>, u: Seq<bool>, s: int, lo: int, hi: int) -> Seq<usize>
    decreases hi - lo,
{
    if hi <= lo {
        Seq::empty()
    } else {
        let prev = joiners(near, u, s, lo, hi - 1);
        let k = hi - 1;
        if !u[k] && near[s][k] {
            prev.push(k as usize)
        } else {
            prev
        }
    }
}

/// The group seeded by hit `s` (empty when `s` was already taken).
pub open spec fn group_of(near: Seq<Seq<bool>>, n: nat, s: int) -> Seq<usize> {
    let u = taken_before(near, n, s);
    if u[s] {
        Seq::empty()
    } else {
        seq![s as usize] + joiners(near, u, s, s + 1, n as int)
    }
}

/// The distinct families of the listed hits, in order of first appearance.
pub open spec fn distinct_families(fams: Seq<SensorFamily>, members: Seq<usize>) -> Seq<SensorFamily>
    decreases members.len(),
{
    if members.len() == 0 {
        Seq::empty()
    } else {
        let prev = distinct_families(fams, members.drop_last());
        let f = fams[members.last() as int];
        if prev.contains(f) {
            prev
        } else {
            prev.push(f)
        }
    }
}

/// The groups seeded before `s` that lock with at least `min_locks` families,
/// as (members, families) pairs.
pub open spec fn locks_before(
    near: Seq<Seq<bool>>,
    fams: Seq<SensorFamily>,
    min_locks: nat,
    n: nat,
    s: int,
) -> Seq<(Seq<usize>, Seq<SensorFamily>)>
    decreases s,
{
    if s <= 0 {
        Seq::empty()
    } else {
        let prev = locks_before(near, fams, min_locks, n, s - 1);
        let g = group_of(near, n, s - 1);
        let d = distinct_families(fams, g);
        if g.len() > 0 && d.len() >= min_locks {
            prev.push((g, d))
        } else {
            prev
        }
    }
}

pub open spec fn group_views(v: Seq<LockGroup>) -> Seq<(Seq<usize>, Seq<SensorFamily>)> {
    v.map_values(|g: LockGroup| (g.members@, g.families@))
}

fn family_in(v: &Vec<SensorFamily>, f: SensorFamily) -> (r: bool)
    ensures
        r == v@.contains(f),
{
    let mut i: usize = 0;
    while i < v.len()
        invariant
            i <= v.len(),
            forall|j: int| 0 <= j < i ==> v@[j] != f,
        decreases v.len() - i,
    {
        if v[i] == f {
            return true;
        }
        i = i + 1;
    }
    false
}

fn distinct_families_exec(fams: &Vec<SensorFamily>, members: &Vec<usize>) -> (r: Vec<SensorFamily>)
    requires
        forall|i: int| 0 <= i < members.len() ==> #[trigger] members@[i] < fams.len(),
    ensures
        r@ == distinct_families(fams@, members@),
{
    let mut out: Vec<SensorFamily> = Vec::new();
    let mut i: usize = 0;
    while i < members.len()
        invariant
            i <= members.len(),
            forall|i: int| 0 <= i < members.len() ==> #[trigger] members@[i] < fams.len(),
            out@ == distinct_families(fams@, members@.take(i as int)),
        decreases members.len() - i,
    {
        assert(members@.take(i + 1).drop_last() =~= members@.take(i as int));
        let f = fams[members[i]];
        if !family_in(&out, f) {
            out.push(f);
        }
        i = i + 1;
    }
    assert(members@.take(members.len() as int) =~= members@);
    out
}

/// Groups hits greedily and keeps the groups that lock: hit `s`, if no earlier
/// group took it, seeds a group with every later untaken hit `k` such that
/// `near[s][k]`; a group locks when its hits span at least `min_locks` distinct
/// families. Locked groups come in seed order.
pub fn lock_groups(near: &Vec<Vec<bool>>, families: &Vec<SensorFamily>, min_locks: u8) -> (r: Vec<LockGroup>)
    requires
        near.len() == families.len(),
        forall|i: int| 0 <= i < near.len() ==> #[trigger] near@[i].len() == near.len(),
    ensures
        group_views(r@) == locks_before(
            near@.map_values(|row: Vec<bool>| row@),
            families@,
            min_locks as nat,
            families.len() as nat,
            families.len() as int,
        ),
{
    let n = families.len();
    let ghost nr = near@.map_values(|row: Vec<bool>| row@);
    let mut used: Vec<bool> = Vec::new();
    let mut z: usize = 0;
    while z < n
        invariant
            z <= n,
            used@ == Seq::new(z as nat, |k: int| false),
        decreases n - z,
    {
        used.push(false);
        z = z + 1;
        assert(used@ =~= Seq::new(z as nat, |k: int| false));
    }
    assert(used@ =~= taken_before(nr, n as nat, 0));
    let mut out: Vec<LockGroup> = Vec::new();
    let mut i: usize = 0;
    while i < n
        invariant
            n == families.len(),
            near.len() == n,
            forall|i: int| 0 <= i < near.len() ==> #[trigger] near@[i].len() == near.len(),
            nr == near@.map_values(|row: Vec<bool>| row@),
            i <= n,
            used@ == taken_before(nr, n as nat, i as int),
            group_views(out@) == locks_before(nr, families@, min_locks as nat, n as nat, i as int),
        decreases n - i,
    {
        let ghost u = used@;
        assert(u.len() == n) by {
            lemma_taken_len(nr, n as nat, i as int);
        }
        if used[i] {
            assert(group_of(nr, n as nat, i as int) =~= Seq::<usize>::empty());
            assert(taken_before(nr, n as nat, i + 1) == u);
            i = i + 1;
            continue;
        }
        used.set(i, true);
        let mut members: Vec<usize> = Vec::new();
        members.push(i);
        let mut j: usize = i + 1;
        assert(nr[i as int] == near@[i as int]@);
        assert(near@[i as int].len() == n);
        while j < n
            invariant
                n == families.len(),
                near.len() == n,
                forall|i: int| 0 <= i < near.len() ==> #[trigger] near@[i].len() == near.len(),
                nr == near@.map_values(|row: Vec<bool>| row@),
                u.len() == n,
                i < n,
                nr[i as int].len() == n,
                !u[i as int],
                i + 1 <= j <= n,
                used.len() == n,
                forall|k: int| 0 <= k < n && k >= j ==> #[trigger] used@[k] == u[k],
                forall|k: int| 0 <= k < n && k < j ==> #[trigger] used@[k] == (u[k] || k == i || (k > i && nr[i as int][k])),
                members@ == seq![i] + joiners(nr, u, i as int, i + 1, j as int),
                forall|k: int| 0 <= k < members.len() ==> #[trigger] members@[k] < n,
            decreases n - j,
        {
            let row = &near[i];
            assert(row@ == nr[i as int]);
            assert(row.len() == n);
            let ghost before_used = used@;
            let ghost before_members = members@;
            assert(forall|k: int| 0 <= k < n && k < j ==> before_used[k] == (u[k] || k == i || (k > i
                && nr[i as int][k])));
            assert(before_used[j as int] == u[j as int]);
            assert(row@[j as int] == nr[i as int][j as int]);
            if !used[j] && row[j] {
                members.push(j);
                used.set(j, true);
            }
            assert(joiners(nr, u, i as int, i + 1, j + 1) == if !u[j as int] && nr[i as int][j as int] {
                joiners(nr, u, i as int, i + 1, j as int).push(j)
            } else {
                joiners(nr, u, i as int, i + 1, j as int)
            });
            assert(members@ =~= seq![i] + joiners(nr, u, i as int, i + 1, j + 1));
            assert forall|k: int| 0 <= k < n && k < j + 1 implies used@[k] == (u[k] || k == i || (k > i
                && nr[i as int][k])) by {
                if k < j {
                    assert(used@[k] == before_used[k]);
                    assert(before_used[k] == (u[k] || k == i || (k > i && nr[i as int][k])));
                } else {
                    assert(k == j);
                }
            }
            j = j + 1;
        }
        let ghost target = Seq::new(n as nat, |k: int| u[k] || k == i || (k > i && nr[i as int][k]));
        assert(taken_before(nr, n as nat, i + 1) == target);
        assert forall|k: int| 0 <= k < n implies used@[k] == target[k] by {
            assert(used@[k] == (u[k] || k == i || (k > i && nr[i as int][k])));
        }
        assert(used@ =~= target);
        assert(members@ == group_of(nr, n as nat, i as int));
        let fams = distinct_families_exec(families, &members);
        if fams.len() >= min_locks as usize {
            let ghost before = out@;
            out.push(LockGroup { members, families: fams });
            assert(group_views(out@) =~= group_views(before).push((group_of(nr, n as nat, i as int), fams@)));
        }
        i = i + 1;
    }
    out
}

proof fn lemma_taken_len(near: Seq<Seq<bool>>, n: nat, s: int)
    ensures
        taken_before(near, n, s).len() == n,
    decreases s,
{
    if s > 0 {
        lemma_taken_len(near, n, s - 1);
    }
}

/// Every joiner lies in `lo..hi`, is untaken under `u` and is near the seed.
proof fn lemma_joiners_members(near: Seq<Seq<bool>>, u: Seq<bool>, s: int, lo: int, hi: int)
    requires
        0 <= lo,
        hi <= usize::MAX,
    ensures
        forall|t: int|
            0 <= t < joiners(near, u, s, lo, hi).len() ==> lo <= #[trigger] joiners(near, u, s, lo, hi)[t] < hi && !u[
                joiners(near, u, s, lo, hi)[t] as int] && near[s][joiners(near, u, s, lo, hi)[t] as int],
    decreases hi - lo,
{
    if hi > lo {
        lemma_joiners_members(near, u, s, lo, hi - 1);
        let prev = joiners(near, u, s, lo, hi - 1);
        let cur = joiners(near, u, s, lo, hi);
        let k = hi - 1;
        assert(((k as usize) as int) == k);
        assert forall|t: int| 0 <= t < cur.len() implies lo <= #[trigger] cur[t] < hi && !u[cur[t] as int] && near[s][cur[t] as int] by {
            if t < prev.len() {
                assert(cur[t] == prev[t]);
            } else {
                assert(cur[t] == k as usize);
            }
        }
    }
}

/// Once taken, a hit stays taken.
proof fn lemma_taken_stays(near: Seq<Seq<bool>>, n: nat, s1: int, s2: int, k: int)
    requires
        0 <= s1 <= s2,
        0 <= k < n,
        taken_before(near, n, s1)[k],
    ensures
        taken_before(near, n, s2)[k],
    decreases s2 - s1,
{
    if s2 > s1 {
        lemma_taken_stays(near, n, s1, s2 - 1, k);
        lemma_taken_len(near, n, s2 - 1);
    }
}

/// The members of the group seeded at `p` are hits untaken before it and
/// taken right after it.
proof fn lemma_group_members(near: Seq<Seq<bool>>, n: nat, p: int)
    requires
        0 <= p < n,
        n <= usize::MAX,
        square(near, n),
    ensures
        forall|t: int|
            0 <= t < group_of(near, n, p).len() ==> #[trigger] group_of(near, n, p)[t] < n && !taken_before(near, n, p)[
                group_of(near, n, p)[t] as int] && taken_before(near, n, p + 1)[group_of(near, n, p)[t] as int],
{
    let u = taken_before(near, n, p);
    lemma_taken_len(near, n, p);
    if !u[p] {
        let j = joiners(near, u, p, p + 1, n as int);
        lemma_joiners_members(near, u, p, p + 1, n as int);
        let g = group_of(near, n, p);
        assert(g == seq![p as usize] + j);
        assert forall|t: int| 0 <= t < g.len() implies #[trigger] g[t] < n && !u[g[t] as int] && taken_before(
            near,
            n,
            p + 1,
        )[g[t] as int] by {
            if t > 0 {
                assert(g[t] == j[t - 1]);
            }
        }
    }
}

/// The two lists share no hit.
pub open spec fn no_common(a: Seq<usize>, b: Seq<usize>) -> bool {
    forall|x: usize| a.contains(x) ==> !b.contains(x)
}

/// No hit belongs to two locked groups.
pub proof fn lemma_locked_groups_disjoint(near: Seq<Seq<bool>>, fams: Seq<SensorFamily>, min_locks: nat, n: nat)
    requires
        n <= usize::MAX,
        square(near, n),
    ensures
        forall|a: int, b: int|
            0 <= a < b < locks_before(near, fams, min_locks, n, n as int).len() ==> no_common(
                #[trigger] locks_before(near, fams, min_locks, n, n as int)[a].0,
                #[trigger] locks_before(near, fams, min_locks, n, n as int)[b].0,
            ),
{
    lemma_locks_taken(near, fams, min_locks, n, n as int);
}

/// The groups locked before seed `s` hold only hits taken before `s`, and
/// none shares a hit with another.
proof fn lemma_locks_taken(near: Seq<Seq<bool>>, fams: Seq<SensorFamily>, min_locks: nat, n: nat, s: int)
    requires
        n <= usize::MAX,
        square(near, n),
        0 <= s <= n,
    ensures
        forall|e: int, t: int|
            0 <= e < locks_before(near, fams, min_locks, n, s).len() && 0 <= t < locks_before(
                near,
                fams,
                min_locks,
                n,
                s,
            )[e].0.len() ==> #[trigger] locks_before(near, fams, min_locks, n, s)[e].0[t] < n && taken_before(
                near,
                n,
                s,
            )[locks_before(near, fams, min_locks, n, s)[e].0[t] as int],
        forall|a: int, b: int|
            0 <= a < b < locks_before(near, fams, min_locks, n, s).len() ==> no_common(
                #[trigger] locks_before(near, fams, min_locks, n, s)[a].0,
                #[trigger] locks_before(near, fams, min_locks, n, s)[b].0,
            ),
    decreases s,
{
    if s > 0 {
        lemma_locks_taken(near, fams, min_locks, n, s - 1);
        lemma_group_members(near, n, s - 1);
        let prev = locks_before(near, fams, min_locks, n, s - 1);
        let cur = locks_before(near, fams, min_locks, n, s);
        let g = group_of(near, n, s - 1);
        assert forall|e: int, t: int| 0 <= e < cur.len() && 0 <= t < cur[e].0.len() implies #[trigger] cur[e].0[t]
            < n && taken_before(near, n, s)[cur[e].0[t] as int] by {
            if e < prev.len() {
                assert(cur[e] == prev[e]);
                lemma_taken_stays(near, n, s - 1, s, prev[e].0[t] as int);
            } else {
                assert(cur[e].0 == g);
            }
        }
        assert forall|a: int, b: int| 0 <= a < b < cur.len() implies no_common(#[trigger] cur[a].0, #[trigger] cur[b].0) by {
            if b < prev.len() {
                assert(cur[a] == prev[a] && cur[b] == prev[b]);
            } else {
                assert(cur[a] == prev[a]);
                assert(cur[b].0 == g);
                assert forall|x: usize| prev[a].0.contains(x) implies !g.contains(x) by {
                    let ta = choose|t: int| 0 <= t < prev[a].0.len() && prev[a].0[t] == x;
                    assert(taken_before(near, n, s - 1)[prev[a].0[ta] as int]);
                    if g.contains(x) {
                        let tg = choose|t: int| 0 <= t < g.len() && g[t] == x;
                        assert(!taken_before(near, n, s - 1)[g[tg] as int]);
                    }
                }
            }
        }
    }
}

} // verus!
