//! Greedy choice of environmentally distinct scenes: walking the scenes from
//! the highest priority down, a scene is kept when it is far enough from
//! every scene kept so far, until enough are kept. The caller ranks the scenes
//! and measures which pairs are far apart.
use vstd::prelude::*;

verus! {

/// The scenes kept after walking the first `k` of `order`.
pub open spec fn kept_after(order: Seq<usize>, far: Seq<Seq<bool>>, target: nat, k: int) -> Seq<usize>
    decreases k,
{
    if k <= 0 {
        Seq::empty()
    } else {
        let kept = kept_after(order, far, target, k - 1);
        let i = order[k - 1];
        if kept.len() < target && forall|t: int| 0 <= t < kept.len() ==> far[i as int][#[trigger] kept[t] as int] {
            kept.push(i)
        } else {
            kept
        }
    }
}

/// `far` relates every scene index that `order` names.
pub open spec fn covers(order: Seq<usize>, far: Seq<Seq<bool>>) -> bool {
    forall|k: int| 0 <= k < order.len() ==> #[trigger] order[k] < far.len() && far[order[k] as int].len() == far.len()
}

/// The scenes kept from `order` (see `kept_after`): at most `target`, each
/// far (`far[i][j]`) from every one kept before it.
pub fn select_distinct_scenes(order: &Vec<usize>, far: &Vec<Vec<bool>>, target: usize) -> (kept: Vec<usize>)
    requires
        covers(order@, far@.map_values(|row: Vec<bool>| row@)),
    ensures
        kept@ == kept_after(order@, far@.map_values(|row: Vec<bool>| row@), target as nat, order.len() as int),
{
    let ghost fv = far@.map_values(|row: Vec<bool>| row@);
    let mut kept: Vec<usize> = Vec::new();
    let mut k: usize = 0;
    while k < order.len() && kept.len() < target
        invariant
            k <= order.len(),
            fv == far@.map_values(|row: Vec<bool>| row@),
            covers(order@, fv),
            kept@ == kept_after(order@, fv, target as nat, k as int),
            forall|t: int| 0 <= t < kept.len() ==> #[trigger] kept@[t] < far.len(),
        decreases order.len() - k,
    {
        let i = order[k];
        assert(i < far.len() && fv[i as int].len() == far.len());
        assert(far@[i as int]@ == fv[i as int]);
        let mut ok = true;
        let mut t: usize = 0;
        while t < kept.len()
            invariant
                t <= kept.len(),
                i < far.len(),
                far@[i as int]@.len() == far.len(),
                forall|u: int| 0 <= u < kept.len() ==> #[trigger] kept@[u] < far.len(),
                ok == forall|u: int| 0 <= u < t ==> far@[i as int]@[#[trigger] kept@[u] as int],
            decreases kept.len() - t,
        {
            if !far[i][kept[t]] {
                ok = false;
            }
            t = t + 1;
        }
        if ok {
            kept.push(i);
        }
        k = k + 1;
    }
    proof {
        lemma_kept_saturated(order@, fv, target as nat, k as int, order.len() as int);
    }
    kept
}

/// Once `target` scenes are kept, nothing more is kept.
proof fn lemma_kept_saturated(order: Seq<usize>, far: Seq<Seq<bool>>, target: nat, k: int, m: int)
    requires
        0 <= k <= m,
        k < m ==> kept_after(order, far, target, k).len() >= target,
    ensures
        kept_after(order, far, target, m) == kept_after(order, far, target, k),
    decreases m - k,
{
    if m > k {
        lemma_kept_saturated(order, far, target, k, m - 1);
    }
}

/// At most `target` scenes are kept, each far from every scene kept before it.
pub proof fn lemma_kept_distinct(order: Seq<usize>, far: Seq<Seq<bool>>, target: nat, k: int)
    requires
        k >= 0,
    ensures
        kept_after(order, far, target, k).len() <= target,
        forall|a: int, b: int|
            0 <= a < b < kept_after(order, far, target, k).len() ==> far[#[trigger] kept_after(order, far, target, k)[b] as int][
                #[trigger] kept_after(order, far, target, k)[a] as int],
    decreases k,
{
    if k > 0 {
        lemma_kept_distinct(order, far, target, k - 1);
        let prev = kept_after(order, far, target, k - 1);
        let cur = kept_after(order, far, target, k);
        assert forall|a: int, b: int| 0 <= a < b < cur.len() implies far[#[trigger] cur[b] as int][#[trigger] cur[a] as int] by {
            if b < prev.len() {
                assert(cur[a] == prev[a] && cur[b] == prev[b]);
            } else {
                assert(cur[a] == prev[a]);
            }
        }
    }
}

} // verus!
