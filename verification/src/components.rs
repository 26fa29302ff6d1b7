//! 4-connected components of a boolean raster, with their pixel counts and
//! the sums of their row and column indices (from which the caller takes the
//! centroids). A component is a cluster of the neighbourhood graph in which a
//! set pixel neighbours itself and its set 4-neighbours, every set pixel being
//! a core point: components are numbered in the row-major order of their first
//! pixel.
use vstd::prelude::*;
use crate::dbscan::{dbscan_labelling, dbscan_labels, neighbour_view, symmetric};

verus! {

/// The neighbours of pixel `p` of a row-major raster `width` pixels wide: a
/// set pixel lists itself, then its set neighbours above, below, left and
/// right; an unset pixel lists nothing.
pub open spec fn grid_neighbours(mask: Seq<bool>, width: int, p: int) -> Seq<usize> {
    let n = mask.len() as int;
    if !mask[p] {
        Seq::empty()
    } else {
        seq![p as usize] + (if p >= width && mask[p - width] {
            seq![(p - width) as usize]
        } else {
            Seq::empty()
        }) + (if p + width < n && mask[p + width] {
            seq![(p + width) as usize]
        } else {
            Seq::empty()
        }) + (if p % width > 0 && mask[p - 1] {
            seq![(p - 1) as usize]
        } else {
            Seq::empty()
        }) + (if p % width + 1 < width && p + 1 < n && mask[p + 1] {
            seq![(p + 1) as usize]
        } else {
            Seq::empty()
        })
    }
}

/// The 4-neighbour graph of the set pixels.
pub open spec fn grid_graph(mask: Seq<bool>, width: int) -> Seq<Seq<usize>> {
    Seq::new(mask.len(), |p: int| grid_neighbours(mask, width, p))
}

/// Sum of the row indices of the pixels labelled `m`.
pub open spec fn blob_rows(labels: Seq<i64>, width: int, m: i64) -> int
    decreases labels.len(),
{
    if labels.len() == 0 {
        0
    } else {
        blob_rows(labels.drop_last(), width, m) + if labels.last() == m {
            (labels.len() - 1) / width
        } else {
            0
        }
    }
}

/// Sum of the column indices of the pixels labelled `m`.
pub open spec fn blob_cols(labels: Seq<i64>, width: int, m: i64) -> int
    decreases labels.len(),
{
    if labels.len() == 0 {
        0
    } else {
        blob_cols(labels.drop_last(), width, m) + if labels.last() == m {
            (labels.len() - 1) % width
        } else {
            0
        }
    }
}

/// Number of pixels labelled `m`.
pub open spec fn blob_size(labels: Seq<i64>, m: i64) -> int
    decreases labels.len(),
{
    if labels.len() == 0 {
        0
    } else {
        blob_size(labels.drop_last(), m) + if labels.last() == m {
            1int
        } else {
            0
        }
    }
}

/// One more than the highest label (0 when there is none).
pub open spec fn label_count(labels: Seq<i64>) -> int
    decreases labels.len(),
{
    if labels.len() == 0 {
        0
    } else {
        let rest = label_count(labels.drop_last());
        if labels.last() + 1 > rest {
            labels.last() + 1
        } else {
            rest
        }
    }
}

/// `(row sum, column sum, pixels)` of the components `0..k` that have at
/// least `min_pixels` pixels, in label order.
pub open spec fn blobs_upto(labels: Seq<i64>, width: int, min_pixels: int, k: int) -> Seq<(int, int, int)>
    decreases k,
{
    if k <= 0 {
        Seq::empty()
    } else {
        let rest = blobs_upto(labels, width, min_pixels, k - 1);
        let m = (k - 1) as i64;
        if blob_size(labels, m) >= min_pixels {
            rest.push((blob_rows(labels, width, m), blob_cols(labels, width, m), blob_size(labels, m)))
        } else {
            rest
        }
    }
}

/// A component: sums of its row and column indices, and its pixel count.
#[derive(Debug, Clone, Copy, PartialEq, Eq)]
pub struct PixelBlob {
    pub row_sum: u64,
    pub col_sum: u64,
    pub n_pixels: usize,
}

/// The values of a list of components.
pub open spec fn blob_views(v: Seq<PixelBlob>) -> Seq<(int, int, int)> {
    v.map_values(|b: PixelBlob| (b.row_sum as int, b.col_sum as int, b.n_pixels as int))
}

/// The neighbour list of pixel `p` (see `grid_neighbours`).
fn pixel_neighbours(mask: &Vec<bool>, width: usize, p: usize) -> (r: Vec<usize>)
    requires
        width > 0,
        p < mask.len(),
    ensures
        r@ == grid_neighbours(mask@, width as int, p as int),
{
    let n = mask.len();
    let mut r: Vec<usize> = Vec::new();
    if !mask[p] {
        return r;
    }
    r.push(p);
    let ghost s0 = r@;
    if p >= width && mask[p - width] {
        r.push(p - width);
    }
    let ghost s1 = r@;
    if width <= n && p < n - width && mask[p + width] {
        r.push(p + width);
    }
    let ghost s2 = r@;
    proof {
        if p == 0 {
            vstd::arithmetic::div_mod::lemma_small_mod(0, width as nat);
        }
    }
    if p > 0 && p % width > 0 && mask[p - 1] {
        r.push(p - 1);
    }
    let ghost s3 = r@;
    if p % width + 1 < width && p + 1 < n && mask[p + 1] {
        r.push(p + 1);
    }
    proof {
        let up: Seq<usize> = if p >= width && mask@[p - width] { seq![(p - width) as usize] } else { Seq::empty() };
        let down: Seq<usize> = if p + width < n && mask@[p + width] { seq![(p + width) as usize] } else { Seq::empty() };
        let left: Seq<usize> = if p % width > 0 && mask@[p - 1] { seq![(p - 1) as usize] } else { Seq::empty() };
        let right: Seq<usize> = if p % width + 1 < width && p + 1 < n && mask@[p + 1] { seq![(p + 1) as usize] } else { Seq::empty() };
        assert(s0 =~= seq![p as usize]);
        assert(s1 =~= s0 + up);
        assert(s2 =~= s1 + down);
        assert(s3 =~= s2 + left);
        assert(r@ =~= s3 + right);
    }
    r
}

/// Pixels `a` and `b` are both set and `b` is `a` itself or one of its four
/// neighbours in the raster.
pub open spec fn adjacent(mask: Seq<bool>, width: int, a: int, b: int) -> bool {
    let n = mask.len() as int;
    &&& mask[a]
    &&& mask[b]
    &&& (b == a || (a >= width && b == a - width) || (a + width < n && b == a + width) || (a % width > 0 && b == a
        - 1) || (a % width + 1 < width && a + 1 < n && b == a + 1))
}

/// A pixel's list holds exactly the pixels adjacent to it.
proof fn lemma_grid_contains(mask: Seq<bool>, width: int, a: int, b: int)
    requires
        width > 0,
        mask.len() <= usize::MAX,
        0 <= a < mask.len(),
        0 <= b < mask.len(),
    ensures
        grid_neighbours(mask, width, a).contains(b as usize) <==> adjacent(mask, width, a, b),
{
    let n = mask.len() as int;
    if a == 0 {
        vstd::arithmetic::div_mod::lemma_small_mod(0, width as nat);
    }
    if mask[a] {
        let s0: Seq<usize> = seq![a as usize];
        let up: Seq<usize> = if a >= width && mask[a - width] { seq![(a - width) as usize] } else { Seq::empty() };
        let down: Seq<usize> = if a + width < n && mask[a + width] { seq![(a + width) as usize] } else { Seq::empty() };
        let left: Seq<usize> = if a % width > 0 && mask[a - 1] { seq![(a - 1) as usize] } else { Seq::empty() };
        let right: Seq<usize> = if a % width + 1 < width && a + 1 < n && mask[a + 1] { seq![(a + 1) as usize] } else { Seq::empty() };
        let x = b as usize;
        assert(grid_neighbours(mask, width, a) == s0 + up + down + left + right);
        vstd::seq_lib::lemma_seq_concat_contains_all_elements(s0 + up + down + left, right, x);
        vstd::seq_lib::lemma_seq_concat_contains_all_elements(s0 + up + down, left, x);
        vstd::seq_lib::lemma_seq_concat_contains_all_elements(s0 + up, down, x);
        vstd::seq_lib::lemma_seq_concat_contains_all_elements(s0, up, x);
        assert(s0.contains(x) <==> b == a) by {
            if s0.contains(x) {
                assert(s0[0] == x);
            }
            if b == a {
                assert(s0[0] == x);
            }
        }
        assert(up.contains(x) <==> (a >= width && mask[a - width] && b == a - width)) by {
            if a >= width && mask[a - width] && b == a - width {
                assert(up[0] == x);
            }
        }
        assert(down.contains(x) <==> (a + width < n && mask[a + width] && b == a + width)) by {
            if a + width < n && mask[a + width] && b == a + width {
                assert(down[0] == x);
            }
        }
        assert(left.contains(x) <==> (a % width > 0 && mask[a - 1] && b == a - 1)) by {
            if a % width > 0 && mask[a - 1] && b == a - 1 {
                assert(left[0] == x);
            }
        }
        assert(right.contains(x) <==> (a % width + 1 < width && a + 1 < n && mask[a + 1] && b == a + 1)) by {
            if a % width + 1 < width && a + 1 < n && mask[a + 1] && b == a + 1 {
                assert(right[0] == x);
            }
        }
    } else {
        assert(!grid_neighbours(mask, width, a).contains(b as usize));
    }
}

/// Adjacency holds both ways.
proof fn lemma_adjacent_symmetric(mask: Seq<bool>, width: int, a: int, b: int)
    requires
        width > 0,
        0 <= a < mask.len(),
        0 <= b < mask.len(),
        adjacent(mask, width, a, b),
    ensures
        adjacent(mask, width, b, a),
{
    let n = mask.len() as int;
    if a == 0 {
        vstd::arithmetic::div_mod::lemma_small_mod(0, width as nat);
    }
    vstd::arithmetic::div_mod::lemma_fundamental_div_mod(a, width);
    vstd::arithmetic::div_mod::lemma_mod_bound(a, width);
    if a % width > 0 && b == a - 1 {
        vstd::arithmetic::div_mod::lemma_fundamental_div_mod_converse(b, width, a / width, a % width - 1);
    } else if a % width + 1 < width && a + 1 < n && b == a + 1 {
        vstd::arithmetic::div_mod::lemma_fundamental_div_mod_converse(b, width, a / width, a % width + 1);
    }
}

/// The 4-neighbour graph is symmetric: a pixel lists a neighbour exactly
/// when that neighbour lists it.
pub proof fn lemma_grid_graph_symmetric(mask: Seq<bool>, width: int)
    requires
        width > 0,
        mask.len() <= usize::MAX,
    ensures
        symmetric(grid_graph(mask, width)),
{
    let g = grid_graph(mask, width);
    assert forall|a: int, b: int|
        0 <= a < g.len() && 0 <= b < g.len() && #[trigger] g[a].contains(b as usize) implies #[trigger] g[b].contains(
        a as usize,
    ) by {
        lemma_grid_contains(mask, width, a, b);
        lemma_adjacent_symmetric(mask, width, a, b);
        lemma_grid_contains(mask, width, b, a);
    }
}

/// Every pixel a list names lies in the raster.
proof fn lemma_grid_entries_bounded(mask: Seq<bool>, width: int, a: int)
    requires
        width > 0,
        mask.len() <= usize::MAX,
        0 <= a < mask.len(),
    ensures
        forall|t: int| 0 <= t < grid_neighbours(mask, width, a).len() ==> #[trigger] grid_neighbours(mask, width, a)[t]
            < mask.len(),
{
    let n = mask.len() as int;
    if mask[a] {
        if a == 0 {
            vstd::arithmetic::div_mod::lemma_small_mod(0, width as nat);
        }
        let s0: Seq<usize> = seq![a as usize];
        let up: Seq<usize> = if a >= width && mask[a - width] { seq![(a - width) as usize] } else { Seq::empty() };
        let down: Seq<usize> = if a + width < n && mask[a + width] { seq![(a + width) as usize] } else { Seq::empty() };
        let left: Seq<usize> = if a % width > 0 && mask[a - 1] { seq![(a - 1) as usize] } else { Seq::empty() };
        let right: Seq<usize> = if a % width + 1 < width && a + 1 < n && mask[a + 1] { seq![(a + 1) as usize] } else { Seq::empty() };
        let all = s0 + up + down + left + right;
        assert(grid_neighbours(mask, width, a) == all);
        assert forall|t: int| 0 <= t < all.len() implies #[trigger] all[t] < n by {
            let a1 = s0 + up;
            let a2 = a1 + down;
            let a3 = a2 + left;
            if t >= a3.len() {
                assert(all[t] == right[t - a3.len()]);
            } else {
                assert(all[t] == a3[t]);
                if t >= a2.len() {
                    assert(a3[t] == left[t - a2.len()]);
                } else {
                    assert(a3[t] == a2[t]);
                    if t >= a1.len() {
                        assert(a2[t] == down[t - a1.len()]);
                    } else {
                        assert(a2[t] == a1[t]);
                        if t >= 1 {
                            assert(a1[t] == up[t - 1]);
                        }
                    }
                }
            }
        }
    }
}

/// Row and column of an index are each at most the index.
proof fn lemma_row_col_bound(i: int, width: int)
    requires
        i >= 0,
        width > 0,
    ensures
        0 <= i / width <= i,
        0 <= i % width <= i,
{
    vstd::arithmetic::div_mod::lemma_fundamental_div_mod(i, width);
    vstd::arithmetic::div_mod::lemma_mod_bound(i, width);
    vstd::arithmetic::div_mod::lemma_mod_decreases(i as nat, width as nat);
    vstd::arithmetic::div_mod::lemma_div_pos_is_pos(i, width);
    let q = i / width;
    let r = i % width;
    assert(q <= i) by (nonlinear_arith)
        requires
            i == width * q + r,
            r >= 0,
            width >= 1,
            q >= 0,
    ;
}

/// The sums over a labelling of length `L` stay within `L * L`, the counts within `L`.
proof fn lemma_blob_bounds(labels: Seq<i64>, width: int, m: i64)
    requires
        width > 0,
    ensures
        0 <= blob_rows(labels, width, m) <= labels.len() * labels.len(),
        0 <= blob_cols(labels, width, m) <= labels.len() * labels.len(),
        0 <= blob_size(labels, m) <= labels.len(),
    decreases labels.len(),
{
    if labels.len() > 0 {
        let l = labels.len() as int;
        lemma_blob_bounds(labels.drop_last(), width, m);
        lemma_row_col_bound(l - 1, width);
        assert((l - 1) * (l - 1) + (l - 1) <= l * l) by (nonlinear_arith)
            requires
                l >= 1,
        ;
    }
}

/// The highest label is below the number of pixels, so the count is at most that.
proof fn lemma_label_count_bound(labels: Seq<i64>, n: int)
    requires
        forall|j: int| 0 <= j < labels.len() ==> #[trigger] labels[j] < n,
        n >= 0,
    ensures
        0 <= label_count(labels) <= n,
        forall|j: int| 0 <= j < labels.len() ==> #[trigger] labels[j] < label_count(labels),
    decreases labels.len(),
{
    if labels.len() > 0 {
        assert forall|j: int| 0 <= j < labels.drop_last().len() implies #[trigger] labels.drop_last()[j] < n by {
            assert(labels.drop_last()[j] == labels[j]);
        }
        lemma_label_count_bound(labels.drop_last(), n);
        assert(labels[labels.len() - 1] < n);
        assert forall|j: int| 0 <= j < labels.len() implies #[trigger] labels[j] < label_count(labels) by {
            if j < labels.len() - 1 {
                assert(labels.drop_last()[j] == labels[j]);
            }
        }
    }
}

/// The 4-connected components of a raster `width` pixels wide (row-major)
/// that have at least `min_pixels` pixels, in the row-major order of their
/// first pixel, each with the sums of its row and column indices and its size.
pub fn connected_centroids(mask: &Vec<bool>, width: usize, min_pixels: usize) -> (r: Vec<PixelBlob>)
    requires
        width > 0,
        mask.len() * mask.len() <= u64::MAX,
    ensures
        exists|labels: Seq<i64>|
            #[trigger] dbscan_labelling(grid_graph(mask@, width as int), 1, labels) && blob_views(r@) == blobs_upto(
                labels,
                width as int,
                min_pixels as int,
                label_count(labels),
            ),
{
    let n = mask.len();
    let ghost g = grid_graph(mask@, width as int);
    let mut nb: Vec<Vec<usize>> = Vec::new();
    let mut p: usize = 0;
    while p < n
        invariant
            p <= n,
            n == mask.len(),
            width > 0,
            g == grid_graph(mask@, width as int),
            nb.len() == p,
            forall|q: int| 0 <= q < p ==> (#[trigger] nb@[q])@ == g[q],
        decreases n - p,
    {
        let row = pixel_neighbours(mask, width, p);
        nb.push(row);
        p = p + 1;
    }
    proof {
        assert(neighbour_view(nb@) =~= g);
        assert forall|c: int, t: int| 0 <= c < g.len() && 0 <= t < g[c].len() implies #[trigger] g[c][t] < g.len() by {
            lemma_grid_entries_bounded(mask@, width as int, c);
        }
        assert(n <= 0xffff_ffff) by (nonlinear_arith)
            requires
                n * n <= 0xffff_ffff_ffff_ffff,
        ;
    }
    let labels = dbscan_labels(&nb, 1);
    let ghost lab = labels@;
    assert(forall|i: int| 0 <= i < n ==> #[trigger] lab[i] >= -1);
    let mut rows: Vec<u64> = Vec::new();
    let mut cols: Vec<u64> = Vec::new();
    let mut sizes: Vec<usize> = Vec::new();
    let mut z: usize = 0;
    while z < n
        invariant
            z <= n,
            rows.len() == z,
            cols.len() == z,
            sizes.len() == z,
            forall|m: int| 0 <= m < z ==> #[trigger] rows@[m] == 0 && cols@[m] == 0 && sizes@[m] == 0,
        decreases n - z,
    {
        rows.push(0);
        cols.push(0);
        sizes.push(0);
        z = z + 1;
    }
    proof {
        assert(lab.take(0) =~= Seq::<i64>::empty());
    }
    let mut q: usize = 0;
    while q < n
        invariant
            q <= n,
            n == mask.len(),
            n * n <= u64::MAX,
            n <= 0xffff_ffff,
            width > 0,
            lab == labels@,
            labels.len() == n,
            forall|j: int| 0 <= j < n ==> #[trigger] lab[j] < n,
            rows.len() == n,
            cols.len() == n,
            sizes.len() == n,
            forall|m: int|
                0 <= m < n ==> #[trigger] rows@[m] == blob_rows(lab.take(q as int), width as int, m as i64)
                    && cols@[m] == blob_cols(lab.take(q as int), width as int, m as i64) && sizes@[m] == blob_size(
                    lab.take(q as int),
                    m as i64,
                ),
        decreases n - q,
    {
        let l = labels[q];
        let ghost pre = lab.take(q as int);
        let ghost post = lab.take(q + 1);
        proof {
            assert(post.drop_last() =~= pre);
            assert(post.last() == l);
        }
        let ghost rows0 = rows@;
        let ghost cols0 = cols@;
        let ghost sizes0 = sizes@;
        if l >= 0 {
            let li = l as usize;
            proof {
                lemma_blob_bounds(post, width as int, l);
                lemma_row_col_bound(q as int, width as int);
                assert((q + 1) * (q + 1) <= n * n) by (nonlinear_arith)
                    requires
                        q + 1 <= n,
                ;
            }
            let r0 = rows[li];
            rows.set(li, r0 + (q / width) as u64);
            let c0 = cols[li];
            cols.set(li, c0 + (q % width) as u64);
            let s0 = sizes[li];
            sizes.set(li, s0 + 1);
        }
        proof {
            assert forall|m: int|
                0 <= m < n implies #[trigger] rows@[m] == blob_rows(post, width as int, m as i64) && cols@[m] == blob_cols(
                post,
                width as int,
                m as i64,
            ) && sizes@[m] == blob_size(post, m as i64) by {
                assert((m as i64) as int == m);
                assert(rows0[m] == blob_rows(pre, width as int, m as i64));
                assert(cols0[m] == blob_cols(pre, width as int, m as i64));
                assert(sizes0[m] == blob_size(pre, m as i64));
                assert(post.len() - 1 == q);
                if l >= 0 && m == l as int {
                    assert(rows@[m] == rows0[m] + (q as int) / (width as int));
                    assert(cols@[m] == cols0[m] + (q as int) % (width as int));
                    assert(sizes@[m] == sizes0[m] + 1);
                } else {
                    assert(post.last() != m as i64);
                    assert(rows@[m] == rows0[m]);
                    assert(cols@[m] == cols0[m]);
                    assert(sizes@[m] == sizes0[m]);
                }
            }
        }
        q = q + 1;
    }
    proof {
        assert(lab.take(n as int) =~= lab);
        lemma_label_count_bound(lab, n as int);
    }
    let mut k: usize = 0;
    let mut j: usize = 0;
    while j < n
        invariant
            j <= n,
            n <= 0xffff_ffff,
            lab == labels@,
            labels.len() == n,
            forall|i: int| 0 <= i < n ==> #[trigger] lab[i] < n,
            forall|i: int| 0 <= i < n ==> #[trigger] lab[i] >= -1,
            k as int == label_count(lab.take(j as int)),
            k <= n,
        decreases n - j,
    {
        proof {
            assert(lab.take(j + 1).drop_last() =~= lab.take(j as int));
            assert(lab.take(j + 1).last() == lab[j as int]);
            lemma_label_count_bound(lab.take(j as int), n as int);
        }
        if labels[j] + 1 > k as i64 {
            k = (labels[j] + 1) as usize;
        }
        j = j + 1;
    }
    proof {
        assert(lab.take(n as int) =~= lab);
    }
    let mut out: Vec<PixelBlob> = Vec::new();
    let mut m: usize = 0;
    while m < k
        invariant
            m <= k <= n,
            n <= 0xffff_ffff,
            k as int == label_count(lab),
            rows.len() == n,
            cols.len() == n,
            sizes.len() == n,
            forall|x: int|
                0 <= x < n ==> #[trigger] rows@[x] == blob_rows(lab, width as int, x as i64) && cols@[x] == blob_cols(
                    lab,
                    width as int,
                    x as i64,
                ) && sizes@[x] == blob_size(lab, x as i64),
            blob_views(out@) == blobs_upto(lab, width as int, min_pixels as int, m as int),
        decreases k - m,
    {
        let ghost before = out@;
        if sizes[m] >= min_pixels {
            out.push(PixelBlob { row_sum: rows[m], col_sum: cols[m], n_pixels: sizes[m] });
        }
        proof {
            assert(((m + 1) - 1) as i64 == m as i64);
            let mi = m as i64;
            assert(blobs_upto(lab, width as int, min_pixels as int, m + 1) == (if blob_size(lab, mi) >= min_pixels {
                blobs_upto(lab, width as int, min_pixels as int, m as int).push(
                    (blob_rows(lab, width as int, mi), blob_cols(lab, width as int, mi), blob_size(lab, mi)),
                )
            } else {
                blobs_upto(lab, width as int, min_pixels as int, m as int)
            }));
            assert(rows@[m as int] == blob_rows(lab, width as int, mi));
            assert(sizes@[m as int] == blob_size(lab, mi));
            assert(cols@[m as int] == blob_cols(lab, width as int, mi));
            if sizes[m as int] >= min_pixels {
                assert(blob_views(out@) =~= blob_views(before).push(
                    (blob_rows(lab, width as int, m as i64), blob_cols(lab, width as int, m as i64), blob_size(lab, m as i64)),
                ));
            } else {
                assert(out@ == before);
            }
        }
        m = m + 1;
    }
    proof {
        assert(dbscan_labelling(grid_graph(mask@, width as int), 1, lab));
    }
    out
}

/// The components of a raster are determined: any two labellings that meet
/// the clustering conditions on its 4-neighbour graph are the same.
pub proof fn lemma_components_determined(mask: Seq<bool>, width: int, l1: Seq<i64>, l2: Seq<i64>)
    requires
        width > 0,
        mask.len() <= usize::MAX,
        dbscan_labelling(grid_graph(mask, width), 1, l1),
        dbscan_labelling(grid_graph(mask, width), 1, l2),
    ensures
        l1 == l2,
{
    lemma_grid_graph_symmetric(mask, width);
    crate::dbscan::lemma_labelling_unique(grid_graph(mask, width), 1, l1, l2);
}

} // verus!
