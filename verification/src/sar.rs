//! SAR temporal persistence: orbit tags, density clustering of detection points,
//! and per-cluster membership counts.
use vstd::prelude::*;
use crate::text::string_views;
use std::collections::HashMap;
use crate::text::{chars_of, contains, contains_str, string_of, to_uppercase, uppercase_of};

verus! {

broadcast use vstd::std_specs::hash::group_hash_axioms;

/// Noise label of the density clustering.
pub const DBSCAN_NOISE: i64 = -1;

/// Number of times `l` occurs among `labels`.
pub open spec fn label_count(labels: Seq<i64>, l: i64) -> nat
    decreases labels.len(),
{
    if labels.len() == 0 {
        0
    } else {
        label_count(labels.drop_last(), l) + if labels.last() == l { 1nat } else { 0 }
    }
}

proof fn lemma_label_count_bound(labels: Seq<i64>, l: i64)
    ensures
        label_count(labels, l) <= labels.len(),
    decreases labels.len(),
{
    if labels.len() > 0 {
        lemma_label_count_bound(labels.drop_last(), l);
    }
}

/// Per-cluster member counts: each non-noise label that occurs is mapped to how
/// often it occurs.
pub fn calculate_persistence(labels: &Vec<i64>) -> (r: HashMap<i64, usize>)
    ensures
        forall|l: i64| #[trigger] r@.contains_key(l) <==> (l != DBSCAN_NOISE && label_count(labels@, l) > 0),
        forall|l: i64| #[trigger] r@.contains_key(l) ==> r@[l] == label_count(labels@, l),
{
    let mut counts: HashMap<i64, usize> = HashMap::new();
    let mut i: usize = 0;
    while i < labels.len()
        invariant
            i <= labels.len(),
            forall|l: i64|
                #[trigger] counts@.contains_key(l) <==> (l != DBSCAN_NOISE && label_count(
                    labels@.take(i as int),
                    l,
                ) > 0),
            forall|l: i64| #[trigger] counts@.contains_key(l) ==> counts@[l] == label_count(labels@.take(i as int), l),
        decreases labels.len() - i,
    {
        let lbl = labels[i];
        proof {
            assert(labels@.take(i + 1).drop_last() =~= labels@.take(i as int));
            lemma_label_count_bound(labels@.take(i as int), lbl);
        }
        if lbl != DBSCAN_NOISE {
            let cur: usize = match counts.get(&lbl) {
                Some(c) => *c,
                None => 0,
            };
            counts.insert(lbl, cur + 1);
        }
        i = i + 1;
    }
    assert(labels@.take(labels.len() as int) =~= labels@);
    counts
}

// ── Orbit tags ──────────────────────────────────────────────────────────────

/// The components of a Unix path that name something: its `/`-separated
/// pieces, leaving out empty pieces and `.`.
pub open spec fn path_pieces(path: Seq<char>) -> Seq<Seq<char>> {
    crate::text::split(path, '/').filter(|p: Seq<char>| p.len() > 0 && p != "."@)
}

/// The last component of a Unix path as `Path::file_name` gives it: the last
/// piece, unless there is none or it is `..`, and then empty.
pub open spec fn file_name_of(path: Seq<char>) -> Seq<char> {
    let ps = path_pieces(path);
    if ps.len() == 0 || ps.last() == ".."@ {
        Seq::empty()
    } else {
        ps.last()
    }
}

/// `Path::new(path).file_name()` as text, empty for `None`. On Unix, where
/// `/` is the only separator, that is `file_name_of` of the path.
#[verifier::external_body]
fn file_name(path: &str) -> (r: String)
    ensures
        r@ == file_name_of(path@),
{
    std::path::Path::new(path).file_name().and_then(|n| n.to_str()).unwrap_or("").to_string()
}

pub open spec fn orbit_from_upper_spec(upper: Seq<char>) -> Seq<char> {
    if contains(upper, "1SDV"@) || contains(upper, "DESC"@) {
        "descending"@
    } else if contains(upper, "1SSH"@) || contains(upper, "ASC"@) {
        "ascending"@
    } else {
        "descending"@
    }
}

/// The orbit tag of a Sentinel-1 product from its upper-cased file name.
pub fn orbit_from_upper_name(upper: &Vec<char>) -> (r: &'static str)
    ensures
        r@ == orbit_from_upper_spec(upper@),
{
    if contains_str(upper, "1SDV") || contains_str(upper, "DESC") {
        "descending"
    } else if contains_str(upper, "1SSH") || contains_str(upper, "ASC") {
        "ascending"
    } else {
        "descending"
    }
}

/// The orbit tag of a Sentinel-1 product file: `descending` for dual-pol `1SDV`
/// or a `DESC` token, `ascending` for `1SSH` or `ASC`, `descending` otherwise.
pub fn orbit_from_filename(path: &str) -> (r: String)
    ensures
        r@ == orbit_from_upper_spec(uppercase_of(file_name_of(path@))),
{
    let name = file_name(path);
    let upper = to_uppercase(name.as_str());
    String::from_str(orbit_from_upper_name(&upper))
}

// ── Downsampling ────────────────────────────────────────────────────────────

/// The block size that brings the longer side of an `h × w` grid down to at most
/// `max_dim`: 1 when it already fits, else the ceiling of the ratio.
pub fn downsample_factor_for_dim(dims: (usize, usize), max_dim: usize) -> (r: usize)
    requires
        max_dim >= 1 || (dims.0 == 0 && dims.1 == 0),
        dims.0 + max_dim <= usize::MAX,
        dims.1 + max_dim <= usize::MAX,
    ensures
        ({
            let m = if dims.0 >= dims.1 { dims.0 } else { dims.1 };
            &&& m <= max_dim ==> r == 1
            &&& m > max_dim ==> r == (m + max_dim - 1) / (max_dim as int)
            &&& m > max_dim ==> (r - 1) * max_dim < m <= r * max_dim
        }),
{
    let (h, w) = dims;
    let m = if h >= w { h } else { w };
    if m <= max_dim {
        1
    } else {
        let r = (m + max_dim - 1) / max_dim;
        proof {
            let q = (m + max_dim - 1) / (max_dim as int);
            vstd::arithmetic::div_mod::lemma_fundamental_div_mod((m + max_dim - 1) as int, max_dim as int);
            vstd::arithmetic::div_mod::lemma_mod_bound((m + max_dim - 1) as int, max_dim as int);
            assert((q - 1) * max_dim < m <= q * max_dim) by (nonlinear_arith)
                requires
                    (m + max_dim - 1) == max_dim * q + (m + max_dim - 1) % (max_dim as int),
                    0 <= (m + max_dim - 1) % (max_dim as int) < max_dim,
            ;
        }
        r
    }
}


// ── Orbit groups ────────────────────────────────────────────────────────────

/// The points of one orbit tag, by index.
#[derive(Debug, Clone)]
pub struct OrbitGroup {
    pub orbit: String,
    pub members: Vec<usize>,
}

/// The indices, in order, at which `key` occurs in `tags`.
pub open spec fn positions_of(tags: Seq<Seq<char>>, key: Seq<char>) -> Seq<usize>
    decreases tags.len(),
{
    if tags.len() == 0 {
        Seq::empty()
    } else {
        let rest = positions_of(tags.drop_last(), key);
        if tags.last() == key {
            rest.push((tags.len() - 1) as usize)
        } else {
            rest
        }
    }
}


/// The orbit tags of a list of groups.
pub open spec fn group_keys(g: Seq<OrbitGroup>) -> Seq<Seq<char>> {
    g.map_values(|x: OrbitGroup| x.orbit@)
}

/// Points grouped by orbit tag. The `ascending` and `descending` groups come
/// first and are always there; every other tag gets a group of its own, in
/// the order in which it first occurs; each group lists the indices of its
/// points in order.
pub fn group_by_orbit(orbits: &Vec<String>) -> (r: Vec<OrbitGroup>)
    ensures
        r.len() >= 2,
        r@[0].orbit@ == "ascending"@,
        r@[1].orbit@ == "descending"@,
        group_keys(r@).no_duplicates(),
        forall|k: Seq<char>|
            group_keys(r@).contains(k) <==> (k == "ascending"@ || k == "descending"@ || string_views(orbits@).contains(k)),
        forall|g: int| 0 <= g < r.len() ==> (#[trigger] r@[g]).members@ == positions_of(string_views(orbits@), r@[g].orbit@),
{
    let mut groups: Vec<OrbitGroup> = Vec::new();
    groups.push(OrbitGroup { orbit: "ascending".to_owned(), members: Vec::new() });
    groups.push(OrbitGroup { orbit: "descending".to_owned(), members: Vec::new() });
    proof {
        reveal_strlit("ascending");
        reveal_strlit("descending");
        assert("ascending"@[0] != "descending"@[0]);
        assert(group_keys(groups@) =~= seq!["ascending"@, "descending"@]);
        assert(string_views(orbits@).take(0) =~= Seq::<Seq<char>>::empty());
    }
    let mut i: usize = 0;
    while i < orbits.len()
        invariant
            i <= orbits.len(),
            groups.len() >= 2,
            groups@[0].orbit@ == "ascending"@,
            groups@[1].orbit@ == "descending"@,
            group_keys(groups@).no_duplicates(),
            forall|k: Seq<char>|
                group_keys(groups@).contains(k) <==> (k == "ascending"@ || k == "descending"@ || string_views(
                    orbits@,
                ).take(i as int).contains(k)),
            forall|g: int|
                0 <= g < groups.len() ==> (#[trigger] groups@[g]).members@ == positions_of(
                    string_views(orbits@).take(i as int),
                    groups@[g].orbit@,
                ),
        decreases orbits.len() - i,
    {
        let tag = chars_of(orbits[i].as_str());
        let ghost tags = string_views(orbits@);
        let ghost before = groups@;
        let ghost pre = tags.take(i as int);
        let ghost post = tags.take(i + 1);
        proof {
            assert(post.drop_last() =~= pre);
            assert(post.last() == tag@);
            assert(tags[i as int] == orbits@[i as int]@);
        }
        let found_at = find_group(&groups, &tag);
        if let Some(g) = found_at {
            let mut grp = groups.remove(g);
            grp.members.push(i);
            groups.insert(g, grp);
            proof {
                assert(groups@ =~= before.update(g as int, groups@[g as int]));
                assert(group_keys(groups@) =~= group_keys(before));
                assert forall|h: int| 0 <= h < groups.len() implies (#[trigger] groups@[h]).members@ == positions_of(
                    post,
                    groups@[h].orbit@,
                ) by {
                    if h != g {
                        assert(groups@[h] == before[h]);
                        assert(before[h].orbit@ != tag@ || h == g) by {
                            if before[h].orbit@ == tag@ {
                                assert(group_keys(before)[h] == group_keys(before)[g as int]);
                            }
                        }
                    }
                }
                assert forall|k: Seq<char>|
                    group_keys(groups@).contains(k) <==> (k == "ascending"@ || k == "descending"@ || tags.take(
                        i + 1,
                    ).contains(k)) by {
                    if post.contains(k) && !pre.contains(k) {
                        assert(k == tag@) by {
                            let w = choose|w: int| 0 <= w < i + 1 && post[w] == k;
                            if w < i {
                                assert(pre[w] == k);
                            }
                        }
                        assert(group_keys(groups@)[g as int] == k);
                    }
                    if pre.contains(k) {
                        let w = choose|w: int| 0 <= w < i && pre[w] == k;
                        assert(post[w] == k);
                    }
                }
            }
        } else {
            let mut members: Vec<usize> = Vec::new();
            members.push(i);
            groups.push(OrbitGroup { orbit: string_of(&tag), members });
            proof {
                assert(group_keys(groups@) =~= group_keys(before).push(tag@));
                assert(!group_keys(before).contains(tag@)) by {
                    if group_keys(before).contains(tag@) {
                        let h = choose|h: int| 0 <= h < before.len() && group_keys(before)[h] == tag@;
                        assert(before[h].orbit@ == tag@);
                    }
                }
                assert(!pre.contains(tag@));
                assert(positions_of(pre, tag@) =~= Seq::<usize>::empty()) by {
                    lemma_positions_absent(pre, tag@);
                }
                assert forall|h: int| 0 <= h < groups.len() implies (#[trigger] groups@[h]).members@ == positions_of(
                    post,
                    groups@[h].orbit@,
                ) by {
                    if h < before.len() {
                        assert(groups@[h] == before[h]);
                    }
                }
                assert forall|a: int, b: int|
                    0 <= a < b < group_keys(groups@).len() implies group_keys(groups@)[a] != group_keys(
                        groups@,
                    )[b] by {
                    if b == before.len() {
                        assert(group_keys(before)[a] == group_keys(groups@)[a]);
                    } else {
                        assert(group_keys(before)[a] == group_keys(groups@)[a]);
                        assert(group_keys(before)[b] == group_keys(groups@)[b]);
                    }
                }
                assert forall|k: Seq<char>|
                    group_keys(groups@).contains(k) <==> (k == "ascending"@ || k == "descending"@ || tags.take(
                        i + 1,
                    ).contains(k)) by {
                    if post.contains(k) && !pre.contains(k) {
                        let w = choose|w: int| 0 <= w < i + 1 && post[w] == k;
                        if w < i {
                            assert(pre[w] == k);
                        }
                        assert(group_keys(groups@)[before.len() as int] == k);
                    }
                    if pre.contains(k) {
                        let w = choose|w: int| 0 <= w < i && pre[w] == k;
                        assert(post[w] == k);
                    }
                    if group_keys(groups@).contains(k) {
                        let h = choose|h: int| 0 <= h < groups.len() && group_keys(groups@)[h] == k;
                        if h < before.len() {
                            assert(group_keys(before)[h] == k);
                        } else {
                            assert(post[i as int] == k);
                        }
                    }
                    if group_keys(before).contains(k) {
                        let h = choose|h: int| 0 <= h < before.len() && group_keys(before)[h] == k;
                        assert(group_keys(groups@)[h] == k);
                    }
                }
            }
        }
        i = i + 1;
    }
    proof {
        assert(string_views(orbits@).take(orbits.len() as int) =~= string_views(orbits@));
    }
    groups
}

/// The index of the group tagged `tag`.
fn find_group(groups: &Vec<OrbitGroup>, tag: &Vec<char>) -> (r: Option<usize>)
    ensures
        match r {
            Some(g) => g < groups.len() && groups@[g as int].orbit@ == tag@,
            None => forall|h: int| 0 <= h < groups.len() ==> (#[trigger] groups@[h]).orbit@ != tag@,
        },
{
    let mut g: usize = 0;
    while g < groups.len()
        invariant
            g <= groups.len(),
            forall|h: int| 0 <= h < g ==> (#[trigger] groups@[h]).orbit@ != tag@,
        decreases groups.len() - g,
    {
        let name = chars_of(groups[g].orbit.as_str());
        if crate::text::chars_eq(&name, tag) {
            return Some(g);
        }
        g = g + 1;
    }
    None
}

pub(crate) proof fn lemma_positions_absent(tags: Seq<Seq<char>>, key: Seq<char>)
    requires
        !tags.contains(key),
    ensures
        positions_of(tags, key) == Seq::<usize>::empty(),
    decreases tags.len(),
{
    if tags.len() > 0 {
        assert(!tags.drop_last().contains(key)) by {
            if tags.drop_last().contains(key) {
                let w = choose|w: int| 0 <= w < tags.drop_last().len() && tags.drop_last()[w] == key;
                assert(tags[w] == key);
            }
        }
        assert(tags[tags.len() - 1] != key);
        lemma_positions_absent(tags.drop_last(), key);
    }
}


// ── Cluster membership ──────────────────────────────────────────────────────

/// The points of one cluster, by index.
#[derive(Debug, Clone)]
pub struct ClusterMembers {
    pub cluster_id: i64,
    pub members: Vec<usize>,
}

/// The indices, in order, at which label `l` occurs.
pub open spec fn label_positions(labels: Seq<i64>, l: i64) -> Seq<usize>
    decreases labels.len(),
{
    if labels.len() == 0 {
        Seq::empty()
    } else {
        let rest = label_positions(labels.drop_last(), l);
        if labels.last() == l {
            rest.push((labels.len() - 1) as usize)
        } else {
            rest
        }
    }
}

/// Label `l` occurs among the first `i` labels.
pub open spec fn occurs_before(labels: Seq<i64>, l: i64, i: int) -> bool {
    exists|j: int| 0 <= j < i && #[trigger] labels[j] == l
}

/// The distinct cluster labels (noise left out), in increasing order.
fn sorted_cluster_ids(labels: &Vec<i64>) -> (ids: Vec<i64>)
    ensures
        forall|a: int, b: int| 0 <= a < b < ids.len() ==> #[trigger] ids@[a] < #[trigger] ids@[b],
        forall|l: i64| ids@.contains(l) <==> (l != DBSCAN_NOISE && labels@.contains(l)),
{
    let mut ids: Vec<i64> = Vec::new();
    let mut i: usize = 0;
    while i < labels.len()
        invariant
            i <= labels.len(),
            forall|a: int, b: int| 0 <= a < b < ids.len() ==> #[trigger] ids@[a] < #[trigger] ids@[b],
            forall|l: i64| #[trigger] ids@.contains(l) <==> (l != DBSCAN_NOISE && occurs_before(labels@, l, i as int)),
        decreases labels.len() - i,
    {
        let x = labels[i];
        let ghost before = ids@;
        proof {
            assert forall|l: i64| #[trigger] occurs_before(labels@, l, i + 1) <==> (occurs_before(labels@, l, i as int) || l == x) by {
                if l == x {
                    assert(labels@[i as int] == l);
                }
                if occurs_before(labels@, l, i + 1) && l != x {
                    let j = choose|j: int| 0 <= j < i + 1 && #[trigger] labels@[j] == l;
                    assert(j < i);
                }
            }
        }
        if x != DBSCAN_NOISE {
            let mut p: usize = 0;
            while p < ids.len() && ids[p] < x
                invariant
                    p <= ids.len(),
                    ids@ == before,
                    forall|q: int| 0 <= q < p ==> #[trigger] ids@[q] < x,
                decreases ids.len() - p,
            {
                p = p + 1;
            }
            if p == ids.len() || ids[p] != x {
                ids.insert(p, x);
                proof {
                    assert forall|a: int, b: int| 0 <= a < b < ids.len() implies #[trigger] ids@[a] < #[trigger] ids@[b] by {
                        if b < p {
                            assert(ids@[a] == before[a] && ids@[b] == before[b]);
                        } else if b == p {
                            assert(ids@[a] == before[a]);
                        } else if a == p {
                            assert(ids@[b] == before[b - 1]);
                            assert(before[p as int] > x) by {
                                assert(before[p as int] >= x);
                            }
                            if b - 1 > p {
                                assert(before[p as int] < before[b - 1]);
                            }
                        } else if a < p {
                            assert(ids@[a] == before[a] && ids@[b] == before[b - 1]);
                            assert(before[a] < before[b - 1]);
                        } else {
                            assert(ids@[a] == before[a - 1] && ids@[b] == before[b - 1]);
                            assert(before[a - 1] < before[b - 1]);
                        }
                    }
                    assert forall|l: i64| #[trigger] ids@.contains(l) <==> (before.contains(l) || l == x) by {
                        if ids@.contains(l) {
                            let w = choose|w: int| 0 <= w < ids.len() && ids@[w] == l;
                            if w < p {
                                assert(before[w] == l);
                            } else if w > p {
                                assert(before[w - 1] == l);
                            }
                        }
                        if before.contains(l) {
                            let w = choose|w: int| 0 <= w < before.len() && before[w] == l;
                            if w < p {
                                assert(ids@[w] == l);
                            } else {
                                assert(ids@[w + 1] == l);
                            }
                        }
                        if l == x {
                            assert(ids@[p as int] == l);
                        }
                    }
                }
            } else {
                proof {
                    assert(before[p as int] == x);
                    assert(before.contains(x));
                }
            }
        }
        proof {
            assert forall|l: i64| #[trigger] ids@.contains(l) <==> (l != DBSCAN_NOISE && occurs_before(labels@, l, i + 1)) by {
                if ids@.contains(l) && !before.contains(l) {
                    assert(l == x);
                }
            }
        }
        i = i + 1;
    }
    proof {
        assert forall|l: i64| labels@.contains(l) <==> occurs_before(labels@, l, labels.len() as int) by {
            if labels@.contains(l) {
                let j = choose|j: int| 0 <= j < labels.len() && labels@[j] == l;
                assert(labels@[j] == l);
            }
        }
    }
    ids
}

/// Some entry of `r` is the cluster labelled `l`.
pub open spec fn has_cluster(r: Seq<ClusterMembers>, l: i64) -> bool {
    exists|g: int| 0 <= g < r.len() && #[trigger] r[g].cluster_id == l
}

/// The members of each cluster of a labelling, clusters in increasing label
/// order (noise left out), members in index order.
pub fn cluster_members(labels: &Vec<i64>) -> (r: Vec<ClusterMembers>)
    ensures
        forall|a: int, b: int| 0 <= a < b < r.len() ==> #[trigger] r@[a].cluster_id < #[trigger] r@[b].cluster_id,
        forall|l: i64| #[trigger] has_cluster(r@, l) <==> (l != DBSCAN_NOISE && labels@.contains(l)),
        forall|g: int| 0 <= g < r.len() ==> (#[trigger] r@[g]).members@ == label_positions(labels@, r@[g].cluster_id),
{
    let ids = sorted_cluster_ids(labels);
    let mut out: Vec<ClusterMembers> = Vec::new();
    let mut k: usize = 0;
    while k < ids.len()
        invariant
            k <= ids.len(),
            out.len() == k,
            forall|g: int| 0 <= g < k ==> (#[trigger] out@[g]).cluster_id == ids@[g],
            forall|g: int| 0 <= g < k ==> (#[trigger] out@[g]).members@ == label_positions(labels@, out@[g].cluster_id),
        decreases ids.len() - k,
    {
        let id = ids[k];
        let mut members: Vec<usize> = Vec::new();
        let mut i: usize = 0;
        while i < labels.len()
            invariant
                i <= labels.len(),
                members@ == label_positions(labels@.take(i as int), id),
            decreases labels.len() - i,
        {
            assert(labels@.take(i + 1).drop_last() =~= labels@.take(i as int));
            if labels[i] == id {
                members.push(i);
            }
            i = i + 1;
        }
        assert(labels@.take(labels.len() as int) =~= labels@);
        out.push(ClusterMembers { cluster_id: id, members });
        k = k + 1;
    }
    proof {
        assert forall|l: i64| #[trigger] has_cluster(out@, l) implies (l != DBSCAN_NOISE && labels@.contains(l)) by {
            let g = choose|g: int| 0 <= g < out.len() && #[trigger] out@[g].cluster_id == l;
            assert(ids@[g] == l);
            assert(ids@.contains(l));
        }
        assert forall|l: i64| (l != DBSCAN_NOISE && labels@.contains(l)) implies #[trigger] has_cluster(out@, l) by {
            assert(ids@.contains(l));
            let g = choose|g: int| 0 <= g < ids.len() && ids@[g] == l;
            assert(out@[g].cluster_id == ids@[g]);
        }
    }
    out
}

} // verus!
