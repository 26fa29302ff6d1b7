//! Density clustering (DBSCAN) over a neighbourhood graph.
//!
//! The caller measures distances and hands over, for every point, the indices
//! of the points within the radius (the point itself included where the
//! metric puts it there). A point is a core point when its neighbourhood holds
//! at least `min_samples` points. Clusters grow from core points, numbered in
//! the order of their first core point; a border point joins the first cluster
//! that reaches it; every other point is noise.
use vstd::prelude::*;
use crate::sar::DBSCAN_NOISE;

verus! {

/// The neighbour lists as sequences.
pub open spec fn neighbour_view(v: Seq<Vec<usize>>) -> Seq<Seq<usize>> {
    v.map_values(|x: Vec<usize>| x@)
}

/// Every neighbour index names a point.
pub open spec fn valid_neighbours(nb: Seq<Seq<usize>>) -> bool {
    forall|c: int, t: int| 0 <= c < nb.len() && 0 <= t < nb[c].len() ==> #[trigger] nb[c][t] < nb.len()
}

/// A neighbourhood relation that holds both ways, as a distance gives.
pub open spec fn symmetric(nb: Seq<Seq<usize>>) -> bool {
    forall|a: int, b: int|
        0 <= a < nb.len() && 0 <= b < nb.len() && #[trigger] nb[a].contains(b as usize) ==> #[trigger] nb[b].contains(
            a as usize,
        )
}

/// Point `c` has at least `min_samples` neighbours.
pub open spec fn is_core(nb: Seq<Seq<usize>>, min_samples: usize, c: int) -> bool {
    nb[c].len() >= min_samples
}

/// A walk through core points, each step to a neighbour of the previous one.
pub open spec fn core_chain(nb: Seq<Seq<usize>>, min_samples: usize, p: Seq<usize>) -> bool {
    &&& p.len() >= 1
    &&& forall|t: int| 0 <= t < p.len() ==> #[trigger] p[t] < nb.len() && is_core(nb, min_samples, p[t] as int)
    &&& forall|t: int| 0 <= t < p.len() - 1 ==> nb[#[trigger] p[t] as int].contains(p[t + 1])
}

/// Some core point before `bound` carries label `m`.
pub open spec fn labelled_before(nb: Seq<Seq<usize>>, min_samples: usize, labels: Seq<i64>, m: int, bound: int) -> bool {
    exists|c: int| 0 <= c < bound && is_core(nb, min_samples, c) && #[trigger] labels[c] == m
}

/// Point `j` lies in the neighbourhood of a core point with the same label.
pub open spec fn reached_by_core(nb: Seq<Seq<usize>>, min_samples: usize, labels: Seq<i64>, j: int) -> bool {
    exists|c: int|
        0 <= c < nb.len() && is_core(nb, min_samples, c) && #[trigger] nb[c].contains(j as usize) && labels[c]
            == labels[j]
}

/// `r` is the first core point that carries label `l`.
pub open spec fn first_core_of(nb: Seq<Seq<usize>>, min_samples: usize, labels: Seq<i64>, r: int, l: i64) -> bool {
    &&& labels[r] == l
    &&& forall|c: int| 0 <= c < r && is_core(nb, min_samples, c) ==> #[trigger] labels[c] != l
}

/// Core point `c` is reached by a chain of core points from the first core
/// point of its cluster.
pub open spec fn chained_from_first(nb: Seq<Seq<usize>>, min_samples: usize, labels: Seq<i64>, c: int) -> bool {
    exists|p: Seq<usize>|
        #[trigger] core_chain(nb, min_samples, p) && p.last() == c as usize && first_core_of(
            nb,
            min_samples,
            labels,
            p[0] as int,
            labels[c],
        )
}

/// What a DBSCAN labelling of the neighbourhood graph `nb` is:
/// - one label per point, `DBSCAN_NOISE` or a cluster number from 0;
/// - every core point is in a cluster;
/// - a non-core point in a cluster is a neighbour of a core point of it;
/// - every neighbour of a core point is in a cluster numbered no higher than
///   that core point's (so noise points are no core point's neighbours);
/// - cluster numbers are handed out in the order of the clusters' first core
///   points;
/// - every core point is reached from its cluster's first core point through
///   core neighbours.
pub open spec fn dbscan_labelling(nb: Seq<Seq<usize>>, min_samples: usize, labels: Seq<i64>) -> bool {
    let n = nb.len();
    &&& labels.len() == n
    &&& forall|j: int| 0 <= j < n ==> #[trigger] labels[j] >= DBSCAN_NOISE
    &&& forall|j: int| 0 <= j < n && is_core(nb, min_samples, j) ==> #[trigger] labels[j] >= 0
    &&& forall|j: int|
        0 <= j < n && #[trigger] labels[j] >= 0 && !is_core(nb, min_samples, j) ==> reached_by_core(
            nb,
            min_samples,
            labels,
            j,
        )
    &&& forall|c: int, t: int|
        0 <= c < n && is_core(nb, min_samples, c) && 0 <= t < nb[c].len() ==> 0 <= #[trigger] labels[nb[c][t] as int]
            <= labels[c]
    &&& forall|c: int, m: int|
        0 <= c < n && is_core(nb, min_samples, c) && 0 <= m < labels[c] ==> #[trigger] labelled_before(
            nb,
            min_samples,
            labels,
            m,
            c,
        )
    &&& forall|c: int| 0 <= c < n && is_core(nb, min_samples, c) ==> #[trigger] chained_from_first(nb, min_samples, labels, c)
}

/// A sequence of indices below `n` without repeats has at most `n` items.
proof fn lemma_distinct_below(s: Seq<usize>, n: usize)
    requires
        s.no_duplicates(),
        forall|t: int| 0 <= t < s.len() ==> #[trigger] s[t] < n,
    ensures
        s.len() <= n,
{
    let f = |x: usize| x as int;
    let si = s.map_values(f);
    assert(vstd::relations::injective(f));
    s.lemma_no_duplicates_injective(f);
    si.unique_seq_to_set();
    vstd::set_lib::lemma_int_range(0, n as int);
    assert(si.to_set().subset_of(vstd::set_lib::set_int_range(0, n as int))) by {
        assert forall|x: int| si.to_set().contains(x) implies vstd::set_lib::set_int_range(0, n as int).contains(x) by {
            let t = choose|t: int| 0 <= t < si.len() && si[t] == x;
            assert(s[t] < n);
        }
    }
    vstd::set_lib::lemma_len_subset(si.to_set(), vstd::set_lib::set_int_range(0, n as int));
}

/// Appends to `frontier` the items of `items` that it does not hold yet, in
/// order; `queued` marks the points that the frontier holds.
fn enqueue_new(frontier: &mut Vec<usize>, queued: &mut Vec<bool>, items: &Vec<usize>, n: usize)
    requires
        old(queued).len() == n,
        old(frontier)@.no_duplicates(),
        forall|t: int| 0 <= t < old(frontier).len() ==> #[trigger] old(frontier)@[t] < n,
        forall|x: int| 0 <= x < n ==> (#[trigger] old(queued)@[x] <==> old(frontier)@.contains(x as usize)),
        forall|t: int| 0 <= t < items.len() ==> #[trigger] items@[t] < n,
    ensures
        final(queued).len() == n,
        final(frontier)@.no_duplicates(),
        final(frontier).len() <= n,
        final(frontier)@.take(old(frontier).len() as int) == old(frontier)@,
        old(frontier).len() <= final(frontier).len(),
        forall|t: int| 0 <= t < final(frontier).len() ==> #[trigger] final(frontier)@[t] < n,
        forall|x: int| 0 <= x < n ==> (#[trigger] final(queued)@[x] <==> final(frontier)@.contains(x as usize)),
        forall|t: int|
            old(frontier).len() <= t < final(frontier).len() ==> items@.contains(#[trigger] final(frontier)@[t]),
        forall|t: int| 0 <= t < items.len() ==> final(frontier)@.contains(#[trigger] items@[t]),
{
    let ghost start = frontier@;
    let mut t: usize = 0;
    while t < items.len()
        invariant
            t <= items.len(),
            queued.len() == n,
            frontier@.no_duplicates(),
            frontier@.take(start.len() as int) == start,
            start.len() <= frontier.len(),
            forall|u: int| 0 <= u < items.len() ==> #[trigger] items@[u] < n,
            forall|u: int| 0 <= u < frontier.len() ==> #[trigger] frontier@[u] < n,
            forall|x: int| 0 <= x < n ==> (#[trigger] queued@[x] <==> frontier@.contains(x as usize)),
            forall|u: int| start.len() <= u < frontier.len() ==> items@.contains(#[trigger] frontier@[u]),
            forall|u: int| 0 <= u < t ==> frontier@.contains(#[trigger] items@[u]),
        decreases items.len() - t,
    {
        let x = items[t];
        if !queued[x] {
            let ghost before = frontier@;
            queued.set(x, true);
            frontier.push(x);
            proof {
                assert(frontier@ == before.push(x));
                assert(!before.contains(x));
                assert forall|a: int, b: int| 0 <= a < b < frontier@.len() implies frontier@[a] != frontier@[b] by {
                    if b == before.len() {
                        assert(before[a] != x);
                    }
                }
                assert(frontier@.take(start.len() as int) =~= before.take(start.len() as int));
                assert forall|y: int| 0 <= y < n implies (#[trigger] queued@[y] <==> frontier@.contains(y as usize)) by {
                    if before.contains(y as usize) {
                        let w = choose|w: int| 0 <= w < before.len() && before[w] == y as usize;
                        assert(frontier@[w] == y as usize);
                    }
                    if frontier@.contains(y as usize) && y as usize != x {
                        let w = choose|w: int| 0 <= w < frontier@.len() && frontier@[w] == y as usize;
                        assert(before[w] == y as usize);
                    }
                    if y as usize == x {
                        assert(frontier@[before.len() as int] == x);
                    }
                }
                assert forall|u: int| 0 <= u < t + 1 implies frontier@.contains(#[trigger] items@[u]) by {
                    if u < t {
                        let w = choose|w: int| 0 <= w < before.len() && before[w] == items@[u];
                        assert(frontier@[w] == items@[u]);
                    } else {
                        assert(frontier@[before.len() as int] == items@[u]);
                    }
                }
                assert(items@[t as int] == x);
                assert forall|u: int| start.len() <= u < frontier.len() implies items@.contains(#[trigger] frontier@[u]) by {
                    if u == before.len() {
                        assert(items@[t as int] == frontier@[u]);
                    } else {
                        assert(frontier@[u] == before[u]);
                    }
                }
            }
        } else {
            proof {
                assert(frontier@.contains(items@[t as int]));
            }
        }
        t = t + 1;
    }
    proof {
        lemma_distinct_below(frontier@, n);
    }
}


/// `n` copies of `false`.
fn all_false(n: usize) -> (r: Vec<bool>)
    ensures
        r.len() == n,
        forall|x: int| 0 <= x < n ==> !#[trigger] r@[x],
{
    let mut r: Vec<bool> = Vec::new();
    let mut z: usize = 0;
    while z < n
        invariant
            z <= n,
            r.len() == z,
            forall|x: int| 0 <= x < z ==> !#[trigger] r@[x],
        decreases n - z,
    {
        r.push(false);
        z = z + 1;
    }
    r
}

/// Labelling a noise point `j` with `l` keeps every clustered non-core point
/// next to a core point of its own cluster, given such a core point for `j`.
proof fn lemma_relabel_keeps_reach(
    nb: Seq<Seq<usize>>,
    min_samples: usize,
    before: Seq<i64>,
    j: int,
    l: i64,
    w: int,
)
    requires
        before.len() == nb.len(),
        0 <= j < nb.len(),
        before[j] == DBSCAN_NOISE,
        l >= 0,
        forall|x: int|
            0 <= x < nb.len() && #[trigger] before[x] >= 0 && !is_core(nb, min_samples, x) ==> reached_by_core(
                nb,
                min_samples,
                before,
                x,
            ),
        !is_core(nb, min_samples, j) ==> 0 <= w < nb.len() && is_core(nb, min_samples, w) && nb[w].contains(
            j as usize,
        ) && before[w] == l,
    ensures
        forall|x: int|
            0 <= x < nb.len() && #[trigger] before.update(j, l)[x] >= 0 && !is_core(nb, min_samples, x)
                ==> reached_by_core(nb, min_samples, before.update(j, l), x),
{
    let after = before.update(j, l);
    assert forall|x: int|
        0 <= x < nb.len() && #[trigger] after[x] >= 0 && !is_core(
            nb,
            min_samples,
            x,
        ) implies reached_by_core(nb, min_samples, after, x) by {
        if x == j {
            assert(after[w] == l);
            assert(nb[w].contains(x as usize));
        } else {
            assert(before[x] >= 0);
            assert(reached_by_core(nb, min_samples, before, x));
            let c = choose|c: int|
                0 <= c < nb.len() && is_core(nb, min_samples, c) && #[trigger] nb[c].contains(x as usize)
                    && before[c] == before[x];
            assert(c != j);
            assert(after[c] == after[x]);
            assert(nb[c].contains(x as usize));
        }
    }
}

/// DBSCAN over the neighbourhood graph `neighbors`: `neighbors[i]` lists the
/// points within the radius of point `i`, and a point with at least
/// `min_samples` of them is a core point. Clusters are numbered from 0;
/// points in no cluster get `DBSCAN_NOISE`.
pub fn dbscan_labels(neighbors: &Vec<Vec<usize>>, min_samples: usize) -> (labels: Vec<i64>)
    requires
        valid_neighbours(neighbour_view(neighbors@)),
        neighbors.len() < i64::MAX,
    ensures
        dbscan_labelling(neighbour_view(neighbors@), min_samples, labels@),
        forall|j: int| 0 <= j < labels.len() ==> #[trigger] labels@[j] < neighbors.len(),
{
    let n = neighbors.len();
    let ghost nb = neighbour_view(neighbors@);
    let mut labels: Vec<i64> = Vec::new();
    let mut z: usize = 0;
    while z < n
        invariant
            z <= n,
            labels.len() == z,
            forall|j: int| 0 <= j < z ==> #[trigger] labels@[j] == DBSCAN_NOISE,
        decreases n - z,
    {
        labels.push(DBSCAN_NOISE);
        z = z + 1;
    }
    let mut visited = all_false(n);
    let mut cluster_id: i64 = -1;
    let ghost mut starts: Seq<usize> = Seq::empty();
    let ghost mut paths: Seq<Seq<usize>> = Seq::new(n as nat, |j: int| Seq::<usize>::empty());
    let mut i: usize = 0;
    while i < n
        invariant
            n == neighbors.len(),
            nb == neighbour_view(neighbors@),
            valid_neighbours(nb),
            n < i64::MAX,
            i <= n,
            labels.len() == n,
            visited.len() == n,
            paths.len() == n,
            starts.len() == cluster_id + 1,
            -1 <= cluster_id < i,
            forall|j: int| 0 <= j < n && !#[trigger] visited@[j] ==> labels@[j] == DBSCAN_NOISE,
            forall|j: int| 0 <= j < i ==> #[trigger] visited@[j],
            forall|j: int| 0 <= j < n ==> -1 <= #[trigger] labels@[j] <= cluster_id,
            forall|j: int|
                0 <= j < n && #[trigger] visited@[j] && is_core(nb, min_samples, j) ==> labels@[j] >= 0,
            forall|j: int|
                0 <= j < n && #[trigger] labels@[j] >= 0 && !is_core(nb, min_samples, j) ==> reached_by_core(
                    nb,
                    min_samples,
                    labels@,
                    j,
                ),
            forall|c: int, t: int|
                0 <= c < n && is_core(nb, min_samples, c) && labels@[c] >= 0 && 0 <= t < nb[c].len() ==> 0
                    <= #[trigger] labels@[nb[c][t] as int] <= labels@[c],
            forall|m: int|
                0 <= m < starts.len() ==> #[trigger] starts[m] < i && is_core(nb, min_samples, starts[m] as int)
                    && labels@[starts[m] as int] == m,
            forall|a: int, b: int| 0 <= a < b < starts.len() ==> #[trigger] starts[a] < #[trigger] starts[b],
            forall|c: int|
                0 <= c < n && is_core(nb, min_samples, c) && #[trigger] labels@[c] >= 0 ==> starts[labels@[c] as int]
                    <= c,
            forall|c: int|
                0 <= c < n && is_core(nb, min_samples, c) && labels@[c] >= 0 ==> core_chain(
                    nb,
                    min_samples,
                    #[trigger] paths[c],
                ) && paths[c].last() == c as usize && paths[c][0] == starts[labels@[c] as int],
        decreases n - i,
    {
        if visited[i] {
            i = i + 1;
            continue;
        }
        visited.set(i, true);
        if neighbors[i].len() < min_samples {
            i = i + 1;
            continue;
        }
        let ghost lab0 = labels@;
        cluster_id = cluster_id + 1;
        labels.set(i, cluster_id);
        proof {
            lemma_relabel_keeps_reach(nb, min_samples, lab0, i as int, cluster_id, 0);
            starts = starts.push(i);
            paths = paths.update(i as int, seq![i]);
            assert(nb[i as int] == neighbors@[i as int]@);
            assert forall|c: int, t: int|
                0 <= c < n && is_core(nb, min_samples, c) && labels@[c] >= 0 && labels@[c] < cluster_id && 0 <= t
                    < nb[c].len() implies 0 <= #[trigger] labels@[nb[c][t] as int] <= labels@[c] by {
                assert(lab0[c] >= 0);
                assert(0 <= lab0[nb[c][t] as int]);
                assert(nb[c][t] < n);
            }
            assert(core_chain(nb, min_samples, seq![i]));
        }
        let mut frontier: Vec<usize> = Vec::new();
        let mut queued = all_false(n);
        proof {
            assert forall|t: int| 0 <= t < neighbors@[i as int].len() implies #[trigger] neighbors@[i as int]@[t] < n by {
                assert(nb[i as int][t] < n);
            }
        }
        enqueue_new(&mut frontier, &mut queued, &neighbors[i], n);
        let ghost mut origin: Seq<usize> = Seq::new(frontier.len() as nat, |t: int| i);
        let mut k: usize = 0;
        while k < frontier.len()
            invariant
                n == neighbors.len(),
                nb == neighbour_view(neighbors@),
                valid_neighbours(nb),
                n < i64::MAX,
                i < n,
                labels.len() == n,
                visited.len() == n,
                paths.len() == n,
                0 <= cluster_id <= i,
                starts.len() == cluster_id + 1,
                starts[cluster_id as int] == i,
                forall|j: int| 0 <= j < n && !#[trigger] visited@[j] ==> labels@[j] == DBSCAN_NOISE,
                forall|j: int| 0 <= j <= i ==> #[trigger] visited@[j],
                forall|j: int| 0 <= j < n ==> -1 <= #[trigger] labels@[j] <= cluster_id,
                forall|j: int|
                    0 <= j < n && #[trigger] visited@[j] && is_core(nb, min_samples, j) ==> labels@[j] >= 0,
                forall|j: int|
                    0 <= j < n && #[trigger] labels@[j] >= 0 && !is_core(nb, min_samples, j) ==> reached_by_core(
                        nb,
                        min_samples,
                        labels@,
                        j,
                    ),
                forall|c: int, t: int|
                    0 <= c < n && is_core(nb, min_samples, c) && labels@[c] >= 0 && labels@[c] < cluster_id && 0 <= t
                        < nb[c].len() ==> 0 <= #[trigger] labels@[nb[c][t] as int] <= labels@[c],
                forall|m: int|
                    0 <= m < starts.len() ==> #[trigger] starts[m] <= i && is_core(
                        nb,
                        min_samples,
                        starts[m] as int,
                    ) && labels@[starts[m] as int] == m,
                forall|a: int, b: int| 0 <= a < b < starts.len() ==> #[trigger] starts[a] < #[trigger] starts[b],
                forall|c: int|
                    0 <= c < n && is_core(nb, min_samples, c) && #[trigger] labels@[c] >= 0 ==> starts[labels@[c] as int]
                        <= c,
                forall|c: int|
                    0 <= c < n && is_core(nb, min_samples, c) && labels@[c] >= 0 ==> core_chain(
                        nb,
                        min_samples,
                        #[trigger] paths[c],
                    ) && paths[c].last() == c as usize && paths[c][0] == starts[labels@[c] as int],
                queued.len() == n,
                frontier@.no_duplicates(),
                frontier.len() <= n,
                forall|t: int| 0 <= t < frontier.len() ==> #[trigger] frontier@[t] < n,
                forall|x: int| 0 <= x < n ==> (#[trigger] queued@[x] <==> frontier@.contains(x as usize)),
                origin.len() == frontier.len(),
                k <= frontier.len(),
                forall|t: int|
                    0 <= t < frontier.len() ==> #[trigger] origin[t] < n && is_core(nb, min_samples, origin[t] as int)
                        && labels@[origin[t] as int] == cluster_id && nb[origin[t] as int].contains(frontier@[t]),
                forall|t: int| 0 <= t < k ==> 0 <= #[trigger] labels@[frontier@[t] as int] <= cluster_id,
                forall|c: int, t: int|
                    0 <= c < n && is_core(nb, min_samples, c) && labels@[c] == cluster_id && 0 <= t < nb[c].len()
                        ==> #[trigger] queued@[nb[c][t] as int],
            decreases n - k,
        {
            let j = frontier[k];
            let ghost lab0 = labels@;
            let ghost f0 = frontier@;
            let ghost q0 = queued@;
            let ghost was_visited = visited@[j as int];
            if !visited[j] {
                visited.set(j, true);
                if neighbors[j].len() >= min_samples {
                    proof {
                        assert forall|t: int| 0 <= t < neighbors@[j as int].len() implies #[trigger] neighbors@[j as int]@[t] < n by {
                            assert(nb[j as int][t] < n);
                        }
                    }
                    enqueue_new(&mut frontier, &mut queued, &neighbors[j], n);
                    proof {
                        origin = origin + Seq::new((frontier.len() - f0.len()) as nat, |t: int| j);
                        assert forall|t: int| 0 <= t < frontier.len() implies frontier@[t] == (if t < f0.len() { f0[t] } else { frontier@[t] }) by {
                            if t < f0.len() {
                                assert(frontier@.take(f0.len() as int)[t] == f0[t]);
                            }
                        }
                    }
                }
            }
            proof {
                assert(frontier@[k as int] == j);
                assert(labels@ == lab0);
            }
            if labels[j] == DBSCAN_NOISE {
                labels.set(j, cluster_id);
                proof {
                    if is_core(nb, min_samples, j as int) {
                        assert(!was_visited);
                    }
                    lemma_relabel_keeps_reach(nb, min_samples, lab0, j as int, cluster_id, origin[k as int] as int);
                    if is_core(nb, min_samples, j as int) {
                        let w = origin[k as int] as int;
                        assert(lab0[w] == cluster_id);
                        assert(core_chain(nb, min_samples, paths[w]));
                        let p = paths[w].push(j);
                        assert(p[p.len() - 2] == w as usize);
                        assert(core_chain(nb, min_samples, p));
                        paths = paths.update(j as int, p);
                    }
                }
            }
            proof {
                // The frontier grew only for a core point labelled in this step.
                assert forall|t: int|
                    0 <= t < frontier.len() implies #[trigger] origin[t] < n && is_core(nb, min_samples, origin[t] as int)
                        && labels@[origin[t] as int] == cluster_id && nb[origin[t] as int].contains(frontier@[t]) by {
                    if t < f0.len() {
                        assert(frontier@[t] == f0[t]);
                    } else {
                        assert(origin[t] == j);
                        let x = frontier@[t];
                        assert(neighbors@[j as int]@.contains(x));
                        assert(nb[j as int] == neighbors@[j as int]@);
                    }
                }
                assert forall|c: int, t: int|
                    0 <= c < n && is_core(nb, min_samples, c) && labels@[c] == cluster_id && 0 <= t < nb[c].len()
                        implies #[trigger] queued@[nb[c][t] as int] by {
                    let x = nb[c][t];
                    assert(x < n);
                    if c == j as int && lab0[c] != cluster_id {
                        assert(nb[c] == neighbors@[j as int]@);
                        assert(neighbors@[j as int]@[t] == x);
                        assert(frontier@.contains(x));
                    } else {
                        assert(lab0[c] == cluster_id);
                        assert(q0[x as int]);
                        let w = choose|w: int| 0 <= w < f0.len() && f0[w] == x;
                        assert(frontier@[w] == x);
                    }
                }
                assert forall|t: int| 0 <= t < k + 1 implies 0 <= #[trigger] labels@[frontier@[t] as int] <= cluster_id by {
                    if t < k {
                        assert(frontier@[t] == f0[t]);
                    }
                }
            }
            k = k + 1;
        }
        proof {
            assert forall|c: int, t: int|
                0 <= c < n && is_core(nb, min_samples, c) && labels@[c] >= 0 && 0 <= t < nb[c].len() implies 0
                    <= #[trigger] labels@[nb[c][t] as int] <= labels@[c] by {
                if labels@[c] == cluster_id {
                    let x = nb[c][t];
                    assert(queued@[x as int]);
                    let w = choose|w: int| 0 <= w < frontier@.len() && frontier@[w] == x;
                    assert(0 <= labels@[frontier@[w] as int] <= cluster_id);
                }
            }
        }
        i = i + 1;
    }
    proof {
        lemma_labelling_complete(nb, min_samples, labels@, visited@, starts, paths);
    }
    labels
}

/// The loop's invariants, once every point is visited, make a DBSCAN labelling.
proof fn lemma_labelling_complete(
    nb: Seq<Seq<usize>>,
    min_samples: usize,
    labels: Seq<i64>,
    visited: Seq<bool>,
    starts: Seq<usize>,
    paths: Seq<Seq<usize>>,
)
    requires
        labels.len() == nb.len(),
        visited.len() == nb.len(),
        paths.len() == nb.len(),
        forall|j: int| 0 <= j < nb.len() ==> #[trigger] visited[j],
        forall|j: int| 0 <= j < nb.len() ==> -1 <= #[trigger] labels[j] < starts.len(),
        forall|j: int|
            0 <= j < nb.len() && #[trigger] visited[j] && is_core(nb, min_samples, j) ==> labels[j] >= 0,
        forall|j: int|
            0 <= j < nb.len() && #[trigger] labels[j] >= 0 && !is_core(nb, min_samples, j) ==> reached_by_core(
                nb,
                min_samples,
                labels,
                j,
            ),
        forall|c: int, t: int|
            0 <= c < nb.len() && is_core(nb, min_samples, c) && labels[c] >= 0 && 0 <= t < nb[c].len() ==> 0
                <= #[trigger] labels[nb[c][t] as int] <= labels[c],
        forall|m: int|
            0 <= m < starts.len() ==> #[trigger] starts[m] < nb.len() && is_core(nb, min_samples, starts[m] as int)
                && labels[starts[m] as int] == m,
        forall|a: int, b: int| 0 <= a < b < starts.len() ==> #[trigger] starts[a] < #[trigger] starts[b],
        forall|c: int|
            0 <= c < nb.len() && is_core(nb, min_samples, c) && #[trigger] labels[c] >= 0 ==> starts[labels[c] as int]
                <= c,
        forall|c: int|
            0 <= c < nb.len() && is_core(nb, min_samples, c) && labels[c] >= 0 ==> core_chain(
                nb,
                min_samples,
                #[trigger] paths[c],
            ) && paths[c].last() == c as usize && paths[c][0] == starts[labels[c] as int],
    ensures
        dbscan_labelling(nb, min_samples, labels),
{
    let n = nb.len();
    assert forall|j: int| 0 <= j < n && is_core(nb, min_samples, j) implies #[trigger] labels[j] >= 0 by {
        assert(visited[j]);
    }
    assert forall|c: int, m: int|
        0 <= c < n && is_core(nb, min_samples, c) && 0 <= m < labels[c] implies #[trigger] labelled_before(
            nb,
            min_samples,
            labels,
            m,
            c,
        ) by {
        assert(visited[c]);
        let l = labels[c] as int;
        assert(starts[m] < starts[l]);
        assert(starts[l] <= c);
        let s = starts[m] as int;
        assert(labels[s] == m);
    }
    assert forall|c: int| 0 <= c < n && is_core(nb, min_samples, c) implies #[trigger] chained_from_first(
        nb,
        min_samples,
        labels,
        c,
    ) by {
        assert(visited[c]);
        assert(labels[c] >= 0);
        let p = paths[c];
        assert(core_chain(nb, min_samples, p));
        let l = labels[c] as int;
        let r = p[0] as int;
        assert(r == starts[l] as int);
        assert(labels[r] == l);
        assert forall|c2: int| 0 <= c2 < r && is_core(nb, min_samples, c2) implies #[trigger] labels[c2] != labels[c] by {
            assert(visited[c2]);
            if labels[c2] == labels[c] {
                assert(starts[labels[c2] as int] <= c2);
            }
        }
        assert(first_core_of(nb, min_samples, labels, r, labels[c]));
    }
}


/// With a symmetric neighbourhood, two core points that are neighbours are in
/// the same cluster.
pub proof fn lemma_core_neighbours_share_cluster(
    nb: Seq<Seq<usize>>,
    min_samples: usize,
    labels: Seq<i64>,
    a: int,
    b: int,
)
    requires
        nb.len() <= usize::MAX,
        symmetric(nb),
        dbscan_labelling(nb, min_samples, labels),
        0 <= a < nb.len(),
        0 <= b < nb.len(),
        is_core(nb, min_samples, a),
        is_core(nb, min_samples, b),
        nb[a].contains(b as usize),
    ensures
        labels[a] == labels[b],
{
    let ta = choose|t: int| 0 <= t < nb[a].len() && nb[a][t] == b as usize;
    assert(labels[nb[a][ta] as int] <= labels[a]);
    assert(nb[b].contains(a as usize));
    let tb = choose|t: int| 0 <= t < nb[b].len() && nb[b][t] == a as usize;
    assert(labels[nb[b][tb] as int] <= labels[b]);
}

/// A point in a cluster that is not a core point belongs to the lowest
/// numbered cluster among those of the core points whose neighbour it is;
/// a point that is no core point's neighbour, and no core point itself, is
/// noise.
pub proof fn lemma_border_point_cluster(nb: Seq<Seq<usize>>, min_samples: usize, labels: Seq<i64>, j: int)
    requires
        nb.len() <= usize::MAX,
        dbscan_labelling(nb, min_samples, labels),
        0 <= j < nb.len(),
        !is_core(nb, min_samples, j),
    ensures
        labels[j] >= 0 <==> exists|c: int| 0 <= c < nb.len() && is_core(nb, min_samples, c) && #[trigger] nb[c].contains(j as usize),
        labels[j] >= 0 ==> (exists|c: int| 0 <= c < nb.len() && is_core(nb, min_samples, c) && #[trigger] nb[c].contains(j as usize) && labels[c] == labels[j]),
        labels[j] >= 0 ==> (forall|c: int| 0 <= c < nb.len() && is_core(nb, min_samples, c) && #[trigger] nb[c].contains(j as usize) ==> labels[j] <= labels[c]),
{
    if labels[j] >= 0 {
        assert(reached_by_core(nb, min_samples, labels, j));
        assert forall|c: int| 0 <= c < nb.len() && is_core(nb, min_samples, c) && #[trigger] nb[c].contains(j as usize) implies labels[j] <= labels[c] by {
            let t = choose|t: int| 0 <= t < nb[c].len() && nb[c][t] == j as usize;
            assert(labels[nb[c][t] as int] <= labels[c]);
        }
    }
    if exists|c: int| 0 <= c < nb.len() && is_core(nb, min_samples, c) && #[trigger] nb[c].contains(j as usize) {
        let c = choose|c: int| 0 <= c < nb.len() && is_core(nb, min_samples, c) && #[trigger] nb[c].contains(j as usize);
        let t = choose|t: int| 0 <= t < nb[c].len() && nb[c][t] == j as usize;
        assert(0 <= labels[nb[c][t] as int]);
    }
}


/// Along a chain of core points every point has the label of the first.
proof fn lemma_chain_one_cluster(nb: Seq<Seq<usize>>, min_samples: usize, labels: Seq<i64>, p: Seq<usize>, t: int)
    requires
        nb.len() <= usize::MAX,
        symmetric(nb),
        dbscan_labelling(nb, min_samples, labels),
        core_chain(nb, min_samples, p),
        0 <= t < p.len(),
    ensures
        labels[p[t] as int] == labels[p[0] as int],
    decreases t,
{
    if t > 0 {
        lemma_chain_one_cluster(nb, min_samples, labels, p, t - 1);
        assert(nb[p[t - 1] as int].contains(p[t]));
        assert(p[t - 1] < nb.len() && is_core(nb, min_samples, p[t - 1] as int));
        assert(p[t] < nb.len() && is_core(nb, min_samples, p[t] as int));
        lemma_core_neighbours_share_cluster(nb, min_samples, labels, p[t - 1] as int, p[t] as int);
    }
}

/// Core points that share a cluster under one DBSCAN labelling share one
/// under any other.
proof fn lemma_same_cluster_transfers(
    nb: Seq<Seq<usize>>,
    min_samples: usize,
    l1: Seq<i64>,
    l2: Seq<i64>,
    a: int,
    b: int,
)
    requires
        nb.len() <= usize::MAX,
        symmetric(nb),
        dbscan_labelling(nb, min_samples, l1),
        dbscan_labelling(nb, min_samples, l2),
        0 <= a < nb.len(),
        0 <= b < nb.len(),
        is_core(nb, min_samples, a),
        is_core(nb, min_samples, b),
        l1[a] == l1[b],
    ensures
        l2[a] == l2[b],
{
    assert(chained_from_first(nb, min_samples, l1, a));
    assert(chained_from_first(nb, min_samples, l1, b));
    let pa = choose|p: Seq<usize>|
        #[trigger] core_chain(nb, min_samples, p) && p.last() == a as usize && first_core_of(
            nb,
            min_samples,
            l1,
            p[0] as int,
            l1[a],
        );
    let pb = choose|p: Seq<usize>|
        #[trigger] core_chain(nb, min_samples, p) && p.last() == b as usize && first_core_of(
            nb,
            min_samples,
            l1,
            p[0] as int,
            l1[b],
        );
    let ra = pa[0] as int;
    let rb = pb[0] as int;
    assert(pa[0] < nb.len() && is_core(nb, min_samples, ra));
    assert(pb[0] < nb.len() && is_core(nb, min_samples, rb));
    if ra < rb {
        assert(l1[ra] != l1[b]);
    }
    if rb < ra {
        assert(l1[rb] != l1[a]);
    }
    assert(ra == rb);
    lemma_chain_one_cluster(nb, min_samples, l2, pa, pa.len() - 1);
    lemma_chain_one_cluster(nb, min_samples, l2, pb, pb.len() - 1);
}

/// Two DBSCAN labellings agree on every core point below `x`, and at `x`.
proof fn lemma_core_labels_agree(nb: Seq<Seq<usize>>, min_samples: usize, l1: Seq<i64>, l2: Seq<i64>, x: int)
    requires
        nb.len() <= usize::MAX,
        symmetric(nb),
        dbscan_labelling(nb, min_samples, l1),
        dbscan_labelling(nb, min_samples, l2),
        0 <= x < nb.len(),
        is_core(nb, min_samples, x),
    ensures
        l1[x] == l2[x],
    decreases x,
{
    if l2[x] < l1[x] {
        let m = l2[x] as int;
        assert(labelled_before(nb, min_samples, l1, m, x));
        let c = choose|c: int| 0 <= c < x && is_core(nb, min_samples, c) && #[trigger] l1[c] == m;
        lemma_core_labels_agree(nb, min_samples, l1, l2, c);
        lemma_same_cluster_transfers(nb, min_samples, l2, l1, c, x);
    }
    if l1[x] < l2[x] {
        let m = l1[x] as int;
        assert(labelled_before(nb, min_samples, l2, m, x));
        let c = choose|c: int| 0 <= c < x && is_core(nb, min_samples, c) && #[trigger] l2[c] == m;
        lemma_core_labels_agree(nb, min_samples, l1, l2, c);
        lemma_same_cluster_transfers(nb, min_samples, l1, l2, c, x);
    }
}

/// With a symmetric neighbourhood the DBSCAN labelling is determined: any two
/// labellings that meet `dbscan_labelling` are the same.
pub proof fn lemma_labelling_unique(nb: Seq<Seq<usize>>, min_samples: usize, l1: Seq<i64>, l2: Seq<i64>)
    requires
        nb.len() <= usize::MAX,
        symmetric(nb),
        dbscan_labelling(nb, min_samples, l1),
        dbscan_labelling(nb, min_samples, l2),
    ensures
        l1 == l2,
{
    assert forall|j: int| 0 <= j < nb.len() implies l1[j] == l2[j] by {
        if is_core(nb, min_samples, j) {
            lemma_core_labels_agree(nb, min_samples, l1, l2, j);
        } else {
            lemma_border_point_cluster(nb, min_samples, l1, j);
            lemma_border_point_cluster(nb, min_samples, l2, j);
            if l1[j] >= 0 {
                let c1 = choose|c: int|
                    0 <= c < nb.len() && is_core(nb, min_samples, c) && #[trigger] nb[c].contains(j as usize) && l1[c]
                        == l1[j];
                lemma_core_labels_agree(nb, min_samples, l1, l2, c1);
                let c2 = choose|c: int|
                    0 <= c < nb.len() && is_core(nb, min_samples, c) && #[trigger] nb[c].contains(j as usize) && l2[c]
                        == l2[j];
                lemma_core_labels_agree(nb, min_samples, l1, l2, c2);
                assert(l2[j] <= l2[c1]);
                assert(l1[j] <= l1[c2]);
            } else {
                assert(l1[j] == DBSCAN_NOISE);
                assert(l2[j] == DBSCAN_NOISE);
            }
        }
    }
    assert(l1 =~= l2);
}

} // verus!
