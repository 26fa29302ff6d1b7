//! Mission settings: the stages a mission runs, its look-back window, where it
//! writes, which sensor lists stay on the native Sentinel-2 path, which known
//! wrecks a name list keeps, and the mission's overall status.
use vstd::prelude::*;
use crate::text::{chars_of, contains, contains_exec, split, split_exec, trim_exec, lowercase_of, to_lowercase, string_of, starts_with, ends_with, append_chars, deep};
use crate::downloads::sensor_piece;

verus! {

/// A step of a mission run.
#[derive(Debug, Clone, Copy, PartialEq, Eq)]
pub enum Stage {
    Download,
    TargetKnown,
    PocAoi,
    SarLocal,
    BagLocal,
    BathyMap,
    TemporalStack,
    ValidateGt,
    Report,
}

/// The stages run when a mission names none.
pub open spec fn default_stages() -> Seq<Stage> {
    seq![Stage::Download, Stage::TargetKnown, Stage::ValidateGt, Stage::Report]
}

/// The stages a mission runs: those it names, else download, known-target
/// scoring, ground-truth validation and the report.
pub fn effective_stages(stages: &Option<Vec<Stage>>) -> (r: Vec<Stage>)
    ensures
        r@ == match *stages {
            Some(s) => s@,
            None => default_stages(),
        },
{
    match stages {
        Some(s) => {
            let mut r: Vec<Stage> = Vec::new();
            let mut i: usize = 0;
            while i < s.len()
                invariant
                    i <= s.len(),
                    r@ == s@.take(i as int),
                decreases s.len() - i,
            {
                r.push(s[i]);
                i = i + 1;
                assert(r@ =~= s@.take(i as int));
            }
            assert(s@.take(s.len() as int) =~= s@);
            r
        },
        None => {
            let mut r: Vec<Stage> = Vec::new();
            r.push(Stage::Download);
            r.push(Stage::TargetKnown);
            r.push(Stage::ValidateGt);
            r.push(Stage::Report);
            assert(r@ =~= default_stages());
            r
        },
    }
}

/// The look-back window in days: the mission's own, else 14.
pub fn days_back(days: Option<u32>) -> (r: u32)
    ensures
        r == match days {
            Some(d) => d,
            None => 14,
        },
{
    match days {
        Some(d) => d,
        None => 14,
    }
}

// ── Paths ───────────────────────────────────────────────────────────────────

/// `part` appended to `base` as a path: an absolute `part` (one that starts
/// with `/`) replaces `base`; otherwise a `/` separates the two unless `base`
/// is empty or already ends with one.
pub open spec fn path_join(base: Seq<char>, part: Seq<char>) -> Seq<char> {
    if starts_with(part, "/"@) {
        part
    } else if base.len() == 0 || ends_with(base, "/"@) {
        base + part
    } else {
        base + "/"@ + part
    }
}

/// `part` appended to `base` as a path (see `path_join`).
pub fn join_path(base: &str, part: &str) -> (r: String)
    ensures
        r@ == path_join(base@, part@),
{
    let b = chars_of(base);
    let p = chars_of(part);
    if crate::text::starts_with_str(&p, "/") {
        return string_of(&p);
    }
    let mut out = crate::text::copy_chars(&b);
    if b.len() > 0 && !crate::text::ends_with_str(&b, "/") {
        let sep = chars_of("/");
        append_chars(&mut out, &sep);
    }
    append_chars(&mut out, &p);
    string_of(&out)
}

/// Where a mission reads and writes.
#[derive(Debug, Clone)]
pub struct MissionPaths {
    pub output_dir: String,
    pub chip_cache_dir: String,
    pub known_wrecks_json: Option<String>,
    pub download_dir: String,
}

/// The text of a given path, or of the fallback.
pub open spec fn given_or(o: Option<String>, fallback: Seq<char>) -> Seq<char> {
    match o {
        Some(s) => s@,
        None => fallback,
    }
}

impl MissionPaths {
    /// The mission's paths from those it names (`output_dir`, `chip_cache_dir`,
    /// `download_dir`, `known_wrecks_json`), with defaults under `default_root`:
    /// `detection_runs/<mission>` for output, `chip_cache` under the output,
    /// `downloads/<mission>` for downloads.
    pub fn from_parts(
        mission_id: &str,
        default_root: &str,
        output_dir: Option<String>,
        chip_cache_dir: Option<String>,
        download_dir: Option<String>,
        known_wrecks_json: Option<String>,
    ) -> (r: MissionPaths)
        ensures
            r.output_dir@ == given_or(
                output_dir,
                path_join(path_join(default_root@, "detection_runs"@), mission_id@),
            ),
            r.chip_cache_dir@ == given_or(chip_cache_dir, path_join(r.output_dir@, "chip_cache"@)),
            r.download_dir@ == given_or(download_dir, path_join(path_join(default_root@, "downloads"@), mission_id@)),
            r.known_wrecks_json == known_wrecks_json,
    {
        let out = match output_dir {
            Some(o) => o,
            None => {
                let runs = join_path(default_root, "detection_runs");
                join_path(runs.as_str(), mission_id)
            },
        };
        let chips = match chip_cache_dir {
            Some(c) => c,
            None => join_path(out.as_str(), "chip_cache"),
        };
        let dl = match download_dir {
            Some(d) => d,
            None => {
                let downloads = join_path(default_root, "downloads");
                join_path(downloads.as_str(), mission_id)
            },
        };
        MissionPaths { output_dir: out, chip_cache_dir: chips, known_wrecks_json, download_dir: dl }
    }
}

// ── Sensor lists ────────────────────────────────────────────────────────────

/// A sensor name served by the native Sentinel-2 path.
pub open spec fn native_s2_sensor(s: Seq<char>) -> bool {
    s == "sentinel2"@ || s == "optical"@ || s == "stac"@
}

/// The non-empty sensor names of a comma-separated list, in order.
pub open spec fn sensor_tokens(raw: Seq<char>) -> Seq<Seq<char>> {
    tokens_upto(raw, split(raw, ',').len() as int)
}

/// The non-empty sensor names among the first `k` pieces of `raw`.
pub open spec fn tokens_upto(raw: Seq<char>, k: int) -> Seq<Seq<char>>
    decreases k,
{
    if k <= 0 {
        Seq::empty()
    } else {
        let rest = tokens_upto(raw, k - 1);
        if sensor_piece(raw, k - 1).len() > 0 {
            rest.push(sensor_piece(raw, k - 1))
        } else {
            rest
        }
    }
}

/// Whether a sensor list stays on the native Sentinel-2 path: it names at
/// least one sensor and every one is `sentinel2`, `optical` or `stac`.
pub fn native_s2_only(sensors: &str) -> (r: bool)
    ensures
        r == (sensor_tokens(sensors@).len() > 0 && forall|t: int|
            0 <= t < sensor_tokens(sensors@).len() ==> native_s2_sensor(#[trigger] sensor_tokens(sensors@)[t])),
{
    let chars = chars_of(sensors);
    let parts = split_exec(&chars, ',');
    let mut count: usize = 0;
    let mut all_native = true;
    let mut i: usize = 0;
    while i < parts.len()
        invariant
            i <= parts.len(),
            deep(parts@) == split(sensors@, ','),
            count == tokens_upto(sensors@, i as int).len(),
            count <= i,
            all_native == forall|t: int|
                0 <= t < tokens_upto(sensors@, i as int).len() ==> native_s2_sensor(
                    #[trigger] tokens_upto(sensors@, i as int)[t],
                ),
        decreases parts.len() - i,
    {
        let piece = trim_exec(&parts[i]);
        let text = string_of(&piece);
        let low = to_lowercase(text.as_str());
        proof {
            assert(deep(parts@)[i as int] == parts@[i as int]@);
            assert(low@ == sensor_piece(sensors@, i as int));
        }
        let ghost before = tokens_upto(sensors@, i as int);
        if low.len() > 0 {
            let native = crate::text::eq_str(&low, "sentinel2") || crate::text::eq_str(&low, "optical")
                || crate::text::eq_str(&low, "stac");
            proof {
                let after = tokens_upto(sensors@, i + 1);
                assert(after == before.push(low@));
                if all_native && native {
                    assert forall|t: int| 0 <= t < after.len() implies native_s2_sensor(#[trigger] after[t]) by {
                        if t < before.len() {
                            assert(after[t] == before[t]);
                        }
                    }
                }
                if !native {
                    assert(after[before.len() as int] == low@);
                }
                if !all_native {
                    let t = choose|t: int| 0 <= t < before.len() && !native_s2_sensor(#[trigger] before[t]);
                    assert(after[t] == before[t]);
                }
            }
            all_native = all_native && native;
            count = count + 1;
        }
        i = i + 1;
    }
    proof {
        assert(split(sensors@, ',').len() == parts.len()) by {
            assert(deep(parts@).len() == parts@.len());
        }
    }
    count > 0 && all_native
}

// ── Known wrecks by name ────────────────────────────────────────────────────

/// Whether a wreck called `name` is kept by the lower-cased wanted names: an
/// empty list keeps every wreck; otherwise the lower-cased name must contain
/// a wanted name or lie within one.
pub open spec fn name_wanted(name: Seq<char>, wanted: Seq<Seq<char>>) -> bool {
    wanted.len() == 0 || exists|k: int|
        0 <= k < wanted.len() && (contains(lowercase_of(name), #[trigger] wanted[k]) || contains(
            wanted[k],
            lowercase_of(name),
        ))
}

/// The wanted wreck names, lower-cased (none where the mission names none).
pub fn wanted_names(names: &Option<Vec<String>>) -> (r: Vec<Vec<char>>)
    ensures
        deep(r@) == match *names {
            Some(v) => v@.map_values(|s: String| lowercase_of(s@)),
            None => Seq::empty(),
        },
{
    let mut r: Vec<Vec<char>> = Vec::new();
    match names {
        None => {
            assert(deep(r@) =~= Seq::<Seq<char>>::empty());
        },
        Some(v) => {
            let mut i: usize = 0;
            while i < v.len()
                invariant
                    i <= v.len(),
                    deep(r@) == v@.take(i as int).map_values(|s: String| lowercase_of(s@)),
                decreases v.len() - i,
            {
                let low = to_lowercase(v[i].as_str());
                let ghost before = deep(r@);
                r.push(low);
                proof {
                    assert(deep(r@) =~= before.push(low@));
                    assert(v@.take(i + 1).map_values(|s: String| lowercase_of(s@)) =~= v@.take(i as int).map_values(
                        |s: String| lowercase_of(s@),
                    ).push(lowercase_of(v@[i as int]@)));
                }
                i = i + 1;
            }
            assert(v@.take(v.len() as int) =~= v@);
        },
    }
    r
}

/// Whether a wreck called `name` passes the name filter (see `name_wanted`).
pub fn wreck_name_wanted(name: &str, wanted: &Vec<Vec<char>>) -> (r: bool)
    ensures
        r == name_wanted(name@, deep(wanted@)),
{
    if wanted.len() == 0 {
        return true;
    }
    let nl = to_lowercase(name);
    let mut k: usize = 0;
    while k < wanted.len()
        invariant
            k <= wanted.len(),
            nl@ == lowercase_of(name@),
            forall|j: int|
                0 <= j < k ==> !(contains(nl@, #[trigger] deep(wanted@)[j]) || contains(deep(wanted@)[j], nl@)),
        decreases wanted.len() - k,
    {
        let hit = contains_exec(&nl, &wanted[k]) || contains_exec(&wanted[k], &nl);
        assert(deep(wanted@)[k as int] == wanted@[k as int]@);
        if hit {
            return true;
        }
        k = k + 1;
    }
    false
}

// ── Mission status ──────────────────────────────────────────────────────────

/// The status of a finished mission: `partial` when the download stage
/// reported a non-zero code, `ok` otherwise.
pub fn mission_status(download_rc: Option<i64>) -> (r: &'static str)
    ensures
        r@ == (if download_rc matches Some(rc) && rc != 0 { "partial"@ } else { "ok"@ }),
{
    match download_rc {
        Some(rc) => if rc != 0 {
            "partial"
        } else {
            "ok"
        },
        None => "ok",
    }
}

// ── Stage names ─────────────────────────────────────────────────────────────

/// The stage a command-line name selects.
pub open spec fn stage_named(name: Seq<char>) -> Option<Stage> {
    if name == "download"@ {
        Some(Stage::Download)
    } else if name == "target_known"@ {
        Some(Stage::TargetKnown)
    } else if name == "poc_aoi"@ {
        Some(Stage::PocAoi)
    } else if name == "sar_local"@ {
        Some(Stage::SarLocal)
    } else if name == "bathy_map"@ {
        Some(Stage::BathyMap)
    } else if name == "bag_local"@ {
        Some(Stage::BagLocal)
    } else if name == "temporal_stack"@ {
        Some(Stage::TemporalStack)
    } else if name == "validate_gt"@ {
        Some(Stage::ValidateGt)
    } else if name == "report"@ {
        Some(Stage::Report)
    } else {
        None
    }
}

/// The name a stage goes by on the command line and in mission files.
pub open spec fn stage_name(s: Stage) -> Seq<char> {
    match s {
        Stage::Download => "download"@,
        Stage::TargetKnown => "target_known"@,
        Stage::PocAoi => "poc_aoi"@,
        Stage::SarLocal => "sar_local"@,
        Stage::BathyMap => "bathy_map"@,
        Stage::BagLocal => "bag_local"@,
        Stage::TemporalStack => "temporal_stack"@,
        Stage::ValidateGt => "validate_gt"@,
        Stage::Report => "report"@,
    }
}

/// A name selects a stage exactly when it is that stage's name: every stage
/// is selected by its own name, and by no other.
pub proof fn lemma_stage_named_iff_name(name: Seq<char>, s: Stage)
    ensures
        stage_named(name) == Some(s) <==> name == stage_name(s),
{
    reveal_strlit("download");
    reveal_strlit("target_known");
    reveal_strlit("poc_aoi");
    reveal_strlit("sar_local");
    reveal_strlit("bathy_map");
    reveal_strlit("bag_local");
    reveal_strlit("temporal_stack");
    reveal_strlit("validate_gt");
    reveal_strlit("report");
    assert("download"@.len() == 8);
    assert("target_known"@.len() == 12);
    assert("poc_aoi"@.len() == 7);
    assert("sar_local"@.len() == 9);
    assert("bathy_map"@.len() == 9);
    assert("bag_local"@.len() == 9);
    assert("temporal_stack"@.len() == 14);
    assert("validate_gt"@.len() == 11);
    assert("report"@.len() == 6);
    assert("bathy_map"@[0] != "sar_local"@[0]);
    assert("bag_local"@[0] != "sar_local"@[0]);
    assert("bag_local"@[2] != "bathy_map"@[2]);
}

/// The stage a command-line name selects (see `stage_named`).
pub fn parse_stage(name: &str) -> (r: Option<Stage>)
    ensures
        r == stage_named(name@),
{
    let n = chars_of(name);
    if crate::text::eq_str(&n, "download") {
        Some(Stage::Download)
    } else if crate::text::eq_str(&n, "target_known") {
        Some(Stage::TargetKnown)
    } else if crate::text::eq_str(&n, "poc_aoi") {
        Some(Stage::PocAoi)
    } else if crate::text::eq_str(&n, "sar_local") {
        Some(Stage::SarLocal)
    } else if crate::text::eq_str(&n, "bathy_map") {
        Some(Stage::BathyMap)
    } else if crate::text::eq_str(&n, "bag_local") {
        Some(Stage::BagLocal)
    } else if crate::text::eq_str(&n, "temporal_stack") {
        Some(Stage::TemporalStack)
    } else if crate::text::eq_str(&n, "validate_gt") {
        Some(Stage::ValidateGt)
    } else if crate::text::eq_str(&n, "report") {
        Some(Stage::Report)
    } else {
        None
    }
}

/// The stages a list of names selects, in order, unknown names skipped.
pub open spec fn stages_named(names: Seq<Seq<char>>) -> Seq<Stage>
    decreases names.len(),
{
    if names.len() == 0 {
        Seq::empty()
    } else {
        let rest = stages_named(names.drop_last());
        match stage_named(names.last()) {
            Some(s) => rest.push(s),
            None => rest,
        }
    }
}

/// The stages a list of command-line names selects, unknown names skipped.
pub fn parse_stages(names: &Vec<String>) -> (r: Vec<Stage>)
    ensures
        r@ == stages_named(names@.map_values(|s: String| s@)),
{
    let ghost nv = names@.map_values(|s: String| s@);
    let mut out: Vec<Stage> = Vec::new();
    let mut i: usize = 0;
    while i < names.len()
        invariant
            i <= names.len(),
            nv == names@.map_values(|s: String| s@),
            out@ == stages_named(nv.take(i as int)),
        decreases names.len() - i,
    {
        assert(nv.take(i + 1).drop_last() =~= nv.take(i as int));
        assert(nv.take(i + 1).last() == names@[i as int]@);
        match parse_stage(names[i].as_str()) {
            Some(s) => out.push(s),
            None => {},
        }
        i = i + 1;
    }
    assert(nv.take(names.len() as int) =~= nv);
    out
}

// ── The download stage ──────────────────────────────────────────────────────

/// Where the download stage goes, given what is known before any scene search.
#[derive(Debug, Clone, Copy, PartialEq, Eq, Structural)]
pub enum DownloadRoute {
    /// A dry run: nothing is fetched.
    Skipped,
    /// The source preflight failed: the stage reports code 2.
    PreflightFailed,
    /// Only native Sentinel-2 sources were asked for: search the STAC catalog.
    NativeStac,
    /// Hand the download to the external downloader.
    ExternalDownloader,
}

/// The route of the download stage: a dry run (of the mission or of the
/// download knob) skips it, a failed preflight stops it, a native
/// Sentinel-2 sensor list searches the catalog, anything else goes to the
/// external downloader.
pub fn download_route(dry_run: bool, dry_run_download: bool, preflight_ok: bool, native_s2_only: bool) -> (r: DownloadRoute)
    ensures
        r == (if dry_run || dry_run_download {
            DownloadRoute::Skipped
        } else if !preflight_ok {
            DownloadRoute::PreflightFailed
        } else if native_s2_only {
            DownloadRoute::NativeStac
        } else {
            DownloadRoute::ExternalDownloader
        }),
{
    if dry_run || dry_run_download {
        DownloadRoute::Skipped
    } else if !preflight_ok {
        DownloadRoute::PreflightFailed
    } else if native_s2_only {
        DownloadRoute::NativeStac
    } else {
        DownloadRoute::ExternalDownloader
    }
}

/// How the native path chose its scenes: pinned water years, automatically
/// ranked low-water years (`auto_` and the scan intent), or the look-back
/// window by cloud cover.
pub open spec fn strategy_text(pinned_years: bool, auto_years: bool, scan_intent: Seq<char>) -> Seq<char> {
    if pinned_years {
        "water_year_priority_then_cloud"@
    } else if auto_years {
        "auto_"@ + scan_intent
    } else {
        "date_window_cloud"@
    }
}

/// The selection strategy the native download reports (see `strategy_text`).
pub fn selection_strategy(pinned_years: bool, auto_years: bool, scan_intent: &str) -> (r: String)
    ensures
        r@ == strategy_text(pinned_years, auto_years, scan_intent@),
{
    if pinned_years {
        string_of(&chars_of("water_year_priority_then_cloud"))
    } else if auto_years {
        let mut out = chars_of("auto_");
        let tail = chars_of(scan_intent);
        append_chars(&mut out, &tail);
        string_of(&out)
    } else {
        string_of(&chars_of("date_window_cloud"))
    }
}

/// What the native path reports once its searches are done.
#[derive(Debug, Clone, Copy, PartialEq, Eq, Structural)]
pub enum NativeOutcome {
    /// Scenes were found: a manifest is written.
    Manifest,
    /// Water years were asked for and none of them had a scene: a warning.
    NoWaterYearScenes,
    /// Nothing was found: fall back to the external downloader.
    FallBack,
}

pub fn native_outcome(n_scenes: usize, water_years: bool) -> (r: NativeOutcome)
    ensures
        r == (if n_scenes > 0 {
            NativeOutcome::Manifest
        } else if water_years {
            NativeOutcome::NoWaterYearScenes
        } else {
            NativeOutcome::FallBack
        }),
{
    if n_scenes > 0 {
        NativeOutcome::Manifest
    } else if water_years {
        NativeOutcome::NoWaterYearScenes
    } else {
        NativeOutcome::FallBack
    }
}

/// The scene budget of a water-year download: each year's search asks for
/// what is left of the budget, and keeps at most that many of its results.
#[derive(Debug, Clone, Copy, PartialEq, Eq, Structural)]
pub struct DownloadBudget {
    pub remaining: usize,
}

/// The budget left after searches that found `founds` scenes in turn.
pub open spec fn budget_left(max: nat, founds: Seq<nat>) -> nat
    decreases founds.len(),
{
    if founds.len() == 0 {
        max
    } else {
        let before = budget_left(max, founds.drop_last());
        if founds.last() < before {
            (before - founds.last()) as nat
        } else {
            0
        }
    }
}

/// The scenes kept over searches that found `founds` scenes in turn.
pub open spec fn budget_kept(max: nat, founds: Seq<nat>) -> nat
    decreases founds.len(),
{
    if founds.len() == 0 {
        0
    } else {
        let before = budget_left(max, founds.drop_last());
        let kept = if founds.last() < before { founds.last() } else { before };
        budget_kept(max, founds.drop_last()) + kept
    }
}

impl DownloadBudget {
    pub fn new(max_results: usize) -> (r: Self)
        ensures
            r.remaining == max_results,
    {
        DownloadBudget { remaining: max_results }
    }

    /// The limit of the next search; none once the budget is spent.
    pub fn next_limit(&self) -> (r: Option<usize>)
        ensures
            r == (if self.remaining == 0 { None } else { Some(self.remaining) }),
    {
        if self.remaining == 0 {
            None
        } else {
            Some(self.remaining)
        }
    }

    /// Takes a search that found `found` scenes: keeps as many as the budget
    /// allows and returns how many.
    pub fn accept(&mut self, found: usize) -> (kept: usize)
        ensures
            kept == (if found < old(self).remaining { found } else { old(self).remaining }),
            final(self).remaining == old(self).remaining - kept,
    {
        let kept = if found < self.remaining { found } else { self.remaining };
        self.remaining = self.remaining - kept;
        kept
    }
}

/// Whatever the searches find, the scenes kept and the budget left add up to
/// the budget given, so no more than the budget is ever kept.
pub proof fn lemma_budget_never_exceeded(max: nat, founds: Seq<nat>)
    ensures
        budget_kept(max, founds) + budget_left(max, founds) == max,
        budget_kept(max, founds) <= max,
    decreases founds.len(),
{
    if founds.len() > 0 {
        lemma_budget_never_exceeded(max, founds.drop_last());
    }
}

// ── Catalogue confidence words ──────────────────────────────────────────────

/// How sure the wreck catalogue is of a wreck, as its confidence word says.
#[derive(Debug, Clone, Copy, PartialEq, Eq, Structural)]
pub enum ConfidenceLevel {
    /// `high`, `verified`, `dive_verified`, `confirmed`.
    High,
    /// `medium`, `moderate`, `probable`.
    Medium,
    /// `low`, `possible`, `unverified`.
    Low,
    /// Any other word.
    Unrated,
}

/// The level a confidence word names: the word is trimmed and lower-cased.
pub open spec fn confidence_level_of(word: Seq<char>) -> ConfidenceLevel {
    let w = lowercase_of(crate::text::trim(word));
    if w == "high"@ || w == "verified"@ || w == "dive_verified"@ || w == "confirmed"@ {
        ConfidenceLevel::High
    } else if w == "medium"@ || w == "moderate"@ || w == "probable"@ {
        ConfidenceLevel::Medium
    } else if w == "low"@ || w == "possible"@ || w == "unverified"@ {
        ConfidenceLevel::Low
    } else {
        ConfidenceLevel::Unrated
    }
}

/// The level a catalogue confidence word names (see `confidence_level_of`).
pub fn confidence_level(word: &str) -> (r: ConfidenceLevel)
    ensures
        r == confidence_level_of(word@),
{
    let t = string_of(&trim_exec(&chars_of(word)));
    let w = to_lowercase(t.as_str());
    let eq = |x: &str| -> (b: bool)
        ensures
            b == (w@ == x@),
        { crate::text::eq_str(&w, x) };
    if eq("high") || eq("verified") || eq("dive_verified") || eq("confirmed") {
        ConfidenceLevel::High
    } else if eq("medium") || eq("moderate") || eq("probable") {
        ConfidenceLevel::Medium
    } else if eq("low") || eq("possible") || eq("unverified") {
        ConfidenceLevel::Low
    } else {
        ConfidenceLevel::Unrated
    }
}

} // verus!
