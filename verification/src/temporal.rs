//! The bookkeeping around the temporal persistence stack: which local scenes
//! exist and in what order, how the stack's dates are labelled, whether the
//! stack is deep enough to trust, and which chip pixels form the centre that
//! the band ratios are read from. The ratios themselves are floating point and
//! are computed by the caller.
use vstd::prelude::*;
use crate::collate::{text_lt, lemma_text_lt_total, lemma_text_lt_transitive, text_less};
use crate::text::{ends_with, split, deep, decimal, chars_of, chars_eq, ends_with_str, string_of, split_exec, decimal_exec};

verus! {

/// The file-name suffix of a scene's blue band.
pub const BLUE_BAND_SUFFIX: &'static str = ".blue.tif";

/// `s` with every trailing copy of `p` removed (as `str::trim_end_matches`).
pub open spec fn strip_trailing(s: Seq<char>, p: Seq<char>) -> Seq<char>
    decreases s.len(),
{
    if p.len() > 0 && ends_with(s, p) {
        strip_trailing(s.take(s.len() - p.len()), p)
    } else {
        s
    }
}

/// The scene id of a file in a scene directory: the name of a blue-band file
/// without its suffix; other files name no scene.
pub open spec fn scene_id(name: Seq<char>) -> Option<Seq<char>> {
    if ends_with(name, BLUE_BAND_SUFFIX@) {
        Some(strip_trailing(name, BLUE_BAND_SUFFIX@))
    } else {
        None
    }
}

/// The scene id that a file name carries, if any (see `scene_id`).
pub fn scene_id_of(name: &str) -> (r: Option<String>)
    ensures
        match r {
            Some(id) => scene_id(name@) == Some(id@),
            None => scene_id(name@) is None,
        },
{
    let mut cur = chars_of(name);
    if !ends_with_str(&cur, BLUE_BAND_SUFFIX) {
        return None;
    }
    let suffix_len = chars_of(BLUE_BAND_SUFFIX).len();
    proof {
        reveal_strlit(".blue.tif");
    }
    while ends_with_str(&cur, BLUE_BAND_SUFFIX)
        invariant
            suffix_len == BLUE_BAND_SUFFIX@.len(),
            suffix_len > 0,
            strip_trailing(cur@, BLUE_BAND_SUFFIX@) == strip_trailing(name@, BLUE_BAND_SUFFIX@),
        decreases cur.len(),
    {
        let keep = cur.len() - suffix_len;
        cur.truncate(keep);
    }
    Some(string_of(&cur))
}

// ── The local scene listing ─────────────────────────────────────────────────

/// A file found in one of the scene directories: the directory's position
/// among the roots searched, and the file's name.
#[derive(Debug, Clone)]
pub struct ListedFile {
    pub root: usize,
    pub name: String,
}

/// A scene found locally: the root it was found under, and its id.
#[derive(Debug, Clone)]
pub struct SceneEntry {
    pub root: usize,
    pub id: String,
}

pub open spec fn listed_id(l: Seq<ListedFile>, j: int) -> Option<Seq<char>> {
    scene_id(l[j].name@)
}

/// File `j` is the first in the listing that names its scene.
pub open spec fn first_listing(l: Seq<ListedFile>, j: int) -> bool {
    &&& 0 <= j < l.len()
    &&& listed_id(l, j) is Some
    &&& forall|t: int| 0 <= t < j ==> listed_id(l, t) != listed_id(l, j)
}

/// Entry `e` records the scene of listed file `j`, under that file's root.
pub open spec fn entry_is(e: SceneEntry, l: Seq<ListedFile>, j: int) -> bool {
    e.root == l[j].root && listed_id(l, j) == Some(e.id@)
}

/// The ids of `s` sort strictly increasing.
pub open spec fn sorted_ids(s: Seq<SceneEntry>) -> bool {
    forall|a: int, b: int| 0 <= a < b < s.len() ==> text_lt(#[trigger] s[a].id@, #[trigger] s[b].id@)
}

/// Some entry of `s` has id `id`.
pub open spec fn has_id(s: Seq<SceneEntry>, id: Seq<char>) -> bool {
    exists|u: int| 0 <= u < s.len() && #[trigger] s[u].id@ == id
}

/// Whether some entry of `r` has the id `id`.
fn find_entry(r: &Vec<SceneEntry>, id: &str) -> (found: bool)
    ensures
        found == has_id(r@, id@),
{
    let idv = chars_of(id);
    let mut a: usize = 0;
    while a < r.len()
        invariant
            a <= r.len(),
            idv@ == id@,
            forall|u: int| 0 <= u < a ==> #[trigger] r@[u].id@ != id@,
        decreases r.len() - a,
    {
        let other = chars_of(r[a].id.as_str());
        if chars_eq(&other, &idv) {
            return true;
        }
        a = a + 1;
    }
    false
}

/// Inserts `e`, whose id no entry has, keeping the ids sorted.
fn insert_sorted(r: &mut Vec<SceneEntry>, e: SceneEntry)
    requires
        sorted_ids(old(r)@),
        !has_id(old(r)@, e.id@),
    ensures
        sorted_ids(final(r)@),
        forall|x: SceneEntry| final(r)@.contains(x) <==> (old(r)@.contains(x) || x == e),
{
    let mut p: usize = r.len();
    while p > 0 && text_less(e.id.as_str(), r[p - 1].id.as_str())
        invariant
            p <= r.len(),
            r@ == old(r)@,
            forall|q: int| p <= q < r.len() ==> text_lt(e.id@, #[trigger] r@[q].id@),
        decreases p,
    {
        p = p - 1;
    }
    let ghost before = r@;
    let ghost idg = e.id@;
    let ghost eg = e;
    r.insert(p, e);
    proof {
        assert forall|a2: int, b2: int| 0 <= a2 < b2 < r.len() implies text_lt(#[trigger] r@[a2].id@, #[trigger] r@[b2].id@) by {
            if b2 < p {
                assert(r@[a2] == before[a2] && r@[b2] == before[b2]);
            } else if b2 == p {
                assert(r@[a2] == before[a2]);
                let last = before[(p - 1) as int].id@;
                assert(!text_lt(idg, last));
                assert(last != idg);
                lemma_text_lt_total(idg, last);
                if a2 < p - 1 {
                    lemma_text_lt_transitive(before[a2].id@, last, idg);
                }
            } else if a2 == p {
                assert(r@[b2] == before[b2 - 1]);
            } else if a2 < p {
                assert(r@[a2] == before[a2] && r@[b2] == before[b2 - 1]);
            } else {
                assert(r@[a2] == before[a2 - 1] && r@[b2] == before[b2 - 1]);
            }
        }
        assert forall|x: SceneEntry| r@.contains(x) <==> (before.contains(x) || x == eg) by {
            if r@.contains(x) {
                let u = choose|u: int| 0 <= u < r@.len() && r@[u] == x;
                if u < p {
                    assert(before[u] == x);
                } else if u > p {
                    assert(before[u - 1] == x);
                }
            }
            if before.contains(x) {
                let u = choose|u: int| 0 <= u < before.len() && before[u] == x;
                if u < p {
                    assert(r@[u] == x);
                } else {
                    assert(r@[u + 1] == x);
                }
            }
            if x == eg {
                assert(r@[p as int] == x);
            }
        }
        assert(forall|x: SceneEntry| r@.contains(x) <==> (old(r)@.contains(x) || x == e));
    }
}

/// The scenes of a listing (files in the order the directories were read,
/// root by root): each scene once, under the root where its blue band was
/// first found, sorted by id.
pub fn local_scene_entries(listing: &Vec<ListedFile>) -> (r: Vec<SceneEntry>)
    ensures
        sorted_ids(r@),
        forall|e: SceneEntry| #[trigger] r@.contains(e) ==> exists|j: int| first_listing(listing@, j) && entry_is(e, listing@, j),
        forall|j: int| #[trigger] first_listing(listing@, j) ==> exists|e: SceneEntry| r@.contains(e) && entry_is(e, listing@, j),
{
    let ghost l = listing@;
    let mut r: Vec<SceneEntry> = Vec::new();
    let mut j: usize = 0;
    while j < listing.len()
        invariant
            j <= listing.len(),
            l == listing@,
            sorted_ids(r@),
            forall|t: int| 0 <= t < j && (#[trigger] listed_id(l, t)) is Some ==> has_id(r@, listed_id(l, t)->0),
            forall|e: SceneEntry| #[trigger] r@.contains(e) ==> exists|t: int| 0 <= t < j && first_listing(l, t) && entry_is(e, l, t),
        decreases listing.len() - j,
    {
        let id_opt = scene_id_of(listing[j].name.as_str());
        if let Some(id) = id_opt {
            if !find_entry(&r, id.as_str()) {
                let ghost before = r@;
                let ghost idg = id@;
                proof {
                    assert forall|t: int| 0 <= t < j implies listed_id(l, t) != listed_id(l, j as int) by {
                        if listed_id(l, t) == listed_id(l, j as int) {
                            assert(has_id(before, idg));
                        }
                    }
                    assert(first_listing(l, j as int));
                }
                let e = SceneEntry { root: listing[j].root, id };
                let ghost eg = e;
                insert_sorted(&mut r, e);
                proof {
                    assert(entry_is(eg, l, j as int));
                    assert(r@.contains(eg));
                    assert forall|t: int| 0 <= t < j + 1 && (#[trigger] listed_id(l, t)) is Some implies has_id(r@, listed_id(l, t)->0) by {
                        if t == j {
                            let u = choose|u: int| 0 <= u < r@.len() && r@[u] == eg;
                            assert(r@[u].id@ == idg);
                        } else {
                            let u = choose|u: int| 0 <= u < before.len() && #[trigger] before[u].id@ == listed_id(l, t)->0;
                            assert(before.contains(before[u]));
                            assert(r@.contains(before[u]));
                            let v = choose|v: int| 0 <= v < r@.len() && r@[v] == before[u];
                            assert(r@[v].id@ == listed_id(l, t)->0);
                        }
                    }
                }
            }
        }
        j = j + 1;
    }
    proof {
        assert forall|jj: int| #[trigger] first_listing(l, jj) implies exists|e: SceneEntry| r@.contains(e) && entry_is(e, l, jj) by {
            let u = choose|u: int| 0 <= u < r@.len() && #[trigger] r@[u].id@ == listed_id(l, jj)->0;
            let e = r@[u];
            assert(r@.contains(e));
            let t = choose|t: int| 0 <= t < l.len() && first_listing(l, t) && entry_is(e, l, t);
            if t < jj {
                assert(listed_id(l, t) == listed_id(l, jj));
            } else if jj < t {
                assert(listed_id(l, t) == listed_id(l, jj));
            }
            assert(t == jj);
        }
    }
    r
}

// ── Labelling the stack ─────────────────────────────────────────────────────

/// The date field of a scene id: its third `_`-separated field.
pub open spec fn date_field(id: Seq<char>) -> Option<Seq<char>> {
    let parts = split(id, '_');
    if parts.len() > 2 {
        Some(parts[2])
    } else {
        None
    }
}

/// The date fields of the ids that have one, in order.
pub open spec fn date_fields(ids: Seq<Seq<char>>) -> Seq<Seq<char>>
    decreases ids.len(),
{
    if ids.len() == 0 {
        Seq::empty()
    } else {
        let rest = date_fields(ids.drop_last());
        match date_field(ids.last()) {
            Some(d) => rest.push(d),
            None => rest,
        }
    }
}

/// The label of a stack: `first..last` of its date fields, or `multi` when
/// no id carries one.
pub open spec fn date_span_text(ids: Seq<Seq<char>>) -> Seq<char> {
    let d = date_fields(ids);
    if d.len() == 0 {
        "multi"@
    } else {
        d[0] + ".."@ + d.last()
    }
}

/// The date label of one scene: its id's date field, or `unknown`.
pub fn scene_date(id: &str) -> (r: String)
    ensures
        r@ == (match date_field(id@) {
            Some(d) => d,
            None => "unknown"@,
        }),
{
    let parts = split_exec(&chars_of(id), '_');
    if parts.len() > 2 {
        assert(deep(parts@)[2] == parts@[2]@);
        string_of(&parts[2])
    } else {
        string_of(&chars_of("unknown"))
    }
}

pub open spec fn entry_ids(s: Seq<SceneEntry>) -> Seq<Seq<char>> {
    s.map_values(|e: SceneEntry| e.id@)
}

/// The date label of the scenes in a stack (see `date_span_text`).
pub fn date_span(entries: &Vec<SceneEntry>) -> (r: String)
    ensures
        r@ == date_span_text(entry_ids(entries@)),
{
    let ghost ids = entry_ids(entries@);
    let mut dates: Vec<Vec<char>> = Vec::new();
    let mut k: usize = 0;
    while k < entries.len()
        invariant
            k <= entries.len(),
            ids == entry_ids(entries@),
            deep(dates@) == date_fields(ids.take(k as int)),
        decreases entries.len() - k,
    {
        let v = chars_of(entries[k].id.as_str());
        let parts = split_exec(&v, '_');
        assert(ids.take(k + 1).drop_last() =~= ids.take(k as int));
        assert(ids.take(k + 1).last() == v@);
        if parts.len() > 2 {
            let d = parts[2].clone();
            assert(d@ == split(v@, '_')[2]);
            dates.push(d);
            assert(deep(dates@) =~= date_fields(ids.take(k as int)).push(d@));
        }
        k = k + 1;
    }
    assert(ids.take(entries.len() as int) =~= ids);
    proof {
        reveal_strlit("multi");
        reveal_strlit("..");
    }
    if dates.len() == 0 {
        return string_of(&chars_of("multi"));
    }
    let mut out = dates[0].clone();
    let sep = chars_of("..");
    crate::text::append_chars(&mut out, &sep);
    let last = dates.len() - 1;
    crate::text::append_chars(&mut out, &dates[last]);
    assert(deep(dates@)[0] == dates@[0]@);
    string_of(&out)
}

// ── Depth of the stack ──────────────────────────────────────────────────────

/// Fewer loaded scenes than this leave too few dates to score a pixel.
pub const MIN_FINITE_DATES: usize = 5;

/// Below this many calm, clear scenes a persistence run is low confidence.
pub const MIN_PERFECT_DAY_STACK: usize = 20;

/// How far a stack of loaded scenes can be trusted.
#[derive(Debug, Clone, Copy, PartialEq, Eq, Structural)]
pub enum StackDepth {
    /// No scene was found: the run ends with an empty outcome.
    NoScenes,
    /// Too few scenes loaded: the run is refused.
    TooShallow,
    /// Enough to run, but below the perfect-day floor.
    LowConfidence,
    /// Deep enough for a trustworthy run.
    Sufficient,
}

/// The depth of a stack of `n_loaded` scenes out of `n_found`.
pub fn stack_depth(n_found: usize, n_loaded: usize) -> (d: StackDepth)
    ensures
        d == (if n_found == 0 {
            StackDepth::NoScenes
        } else if n_loaded < MIN_FINITE_DATES {
            StackDepth::TooShallow
        } else if n_loaded < MIN_PERFECT_DAY_STACK {
            StackDepth::LowConfidence
        } else {
            StackDepth::Sufficient
        }),
{
    if n_found == 0 {
        StackDepth::NoScenes
    } else if n_loaded < MIN_FINITE_DATES {
        StackDepth::TooShallow
    } else if n_loaded < MIN_PERFECT_DAY_STACK {
        StackDepth::LowConfidence
    } else {
        StackDepth::Sufficient
    }
}

pub open spec fn too_shallow_text(n_loaded: nat) -> Seq<char> {
    "need at least "@ + decimal(MIN_FINITE_DATES as nat) + " scenes with valid B02/B03, got "@ + decimal(n_loaded)
}

/// The error a too-shallow stack is refused with.
pub fn too_shallow_message(n_loaded: usize) -> (r: String)
    ensures
        r@ == too_shallow_text(n_loaded as nat),
{
    let mut out = chars_of("need at least ");
    let min = decimal_exec(MIN_FINITE_DATES as u64);
    crate::text::append_chars(&mut out, &min);
    let mid = chars_of(" scenes with valid B02/B03, got ");
    crate::text::append_chars(&mut out, &mid);
    let n = decimal_exec(n_loaded as u64);
    crate::text::append_chars(&mut out, &n);
    string_of(&out)
}

/// What a local temporal run yields: the scenes loaded, the dates used, and
/// the candidates found.
#[derive(Debug, Clone)]
pub struct TemporalLocalOutcome<C> {
    pub n_scenes: usize,
    pub n_dates_used: usize,
    pub candidates: Vec<C>,
}

impl<C> TemporalLocalOutcome<C> {
    /// The outcome of a run that found no scene.
    pub fn empty() -> (r: Self)
        ensures
            r.n_scenes == 0,
            r.n_dates_used == 0,
            r.candidates@.len() == 0,
    {
        TemporalLocalOutcome { n_scenes: 0, n_dates_used: 0, candidates: Vec::new() }
    }
}

// ── The chip centre ─────────────────────────────────────────────────────────

/// Pixel (`x`, `y`) of a `px`-wide square chip lies in its centre: within a
/// quarter of the width of the middle pixel on both axes.
pub open spec fn in_centre(px: int, x: int, y: int) -> bool {
    let mid = px / 2;
    let r = px / 4;
    -r <= y - mid <= r && -r <= x - mid <= r
}

/// The row-major indices below `n` of centre pixels of a `px`-wide chip.
pub open spec fn centre_upto(px: int, n: int) -> Seq<usize>
    decreases n,
{
    if n <= 0 {
        Seq::empty()
    } else {
        let rest = centre_upto(px, n - 1);
        if in_centre(px, (n - 1) % px, (n - 1) / px) {
            rest.push((n - 1) as usize)
        } else {
            rest
        }
    }
}

/// The row-major indices of the centre pixels of a `chip_px`-wide chip, in
/// the order the rows are read.
pub fn centre_indices(chip_px: usize) -> (r: Vec<usize>)
    requires
        chip_px * chip_px <= usize::MAX,
    ensures
        r@ == centre_upto(chip_px as int, chip_px * chip_px),
{
    let n = chip_px * chip_px;
    let mid = chip_px / 2;
    let rad = chip_px / 4;
    let mut r: Vec<usize> = Vec::new();
    let mut i: usize = 0;
    while i < n
        invariant
            n == chip_px * chip_px,
            i <= n,
            mid == chip_px / 2,
            rad == chip_px / 4,
            r@ == centre_upto(chip_px as int, i as int),
        decreases n - i,
    {
        assert(chip_px > 0) by (nonlinear_arith)
            requires
                i < n,
                n == chip_px * chip_px,
        ;
        let x = i % chip_px;
        let y = i / chip_px;
        let dy = if y >= mid { y - mid } else { mid - y };
        let dx = if x >= mid { x - mid } else { mid - x };
        if dy <= rad && dx <= rad {
            r.push(i);
        }
        i = i + 1;
    }
    r
}

/// Whether `name` is among the ratio channels asked for.
pub fn channel_wanted(channels: &Vec<String>, name: &str) -> (r: bool)
    ensures
        r == exists|t: int| 0 <= t < channels.len() && #[trigger] channels@[t]@ == name@,
{
    let want = chars_of(name);
    let mut t: usize = 0;
    while t < channels.len()
        invariant
            t <= channels.len(),
            want@ == name@,
            forall|u: int| 0 <= u < t ==> #[trigger] channels@[u]@ != name@,
        decreases channels.len() - t,
    {
        let have = chars_of(channels[t].as_str());
        if chars_eq(&have, &want) {
            return true;
        }
        t = t + 1;
    }
    false
}

} // verus!
