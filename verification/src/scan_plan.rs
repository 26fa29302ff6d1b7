//! Acquisition planning: how the scene stack for a target is built.
//!
//! A recent sinking inside the satellite archive is bracketed by a window before
//! and a window after the event; a historical wreck takes the best years each
//! sensor can serve for the scan intent, restricted to the intent's season.
use vstd::prelude::*;
use chrono::Datelike;
use crate::text::{
    ascii_lower, chars_of, to_ascii_lower, eq_str, signed_padded, signed_padded_exec, zero_pad,
    zero_pad_exec, decimal, decimal_exec, append_chars, string_of, lowercase_of,
};
use crate::env_conditions::{ScanIntent, season_months_spec, intent_season_months};
use crate::lake_levels::{
    self, LakeBasin, SensorFamily, select_years_spec, select_years_in, sensor_from_lowercase,
    intent_from_normalized, current_year,
};

verus! {

/// Minimum qualifying scenes before a persistence scan is trustworthy.
pub const MIN_SCENES: usize = 20;
/// Qualifying scenes accumulated for a full-confidence run.
pub const TARGET_SCENES: usize = 100;
/// Scenes requested per acquisition batch.
pub const BATCH_SIZE: usize = 30;

/// How the stack is built.
#[derive(Debug, Clone, Copy, PartialEq, Eq, Structural)]
pub enum ScanMode {
    /// Bracket a recent event: a window before it and a window after it.
    BeforeAfter,
    /// Best available years per sensor, ranked by intent.
    Historical,
}

pub open spec fn scan_mode_named(n: Seq<char>) -> Option<ScanMode> {
    if n == "before_after"@ || n == "beforeafter"@ || n == "before-after"@ || n == "recent"@ {
        Some(ScanMode::BeforeAfter)
    } else if n == "historical"@ || n == "hist"@ {
        Some(ScanMode::Historical)
    } else {
        None
    }
}

/// The name a mode is written by in snake case.
pub open spec fn scan_mode_key(m: ScanMode) -> Seq<char> {
    match m {
        ScanMode::BeforeAfter => "before_after"@,
        ScanMode::Historical => "historical"@,
    }
}

/// Every mode reads back from its own name.
pub proof fn lemma_scan_mode_key_reads_back(m: ScanMode)
    ensures
        scan_mode_named(scan_mode_key(m)) == Some(m),
{
    reveal_strlit("before_after");
    reveal_strlit("beforeafter");
    reveal_strlit("before-after");
    reveal_strlit("recent");
    reveal_strlit("historical");
    reveal_strlit("hist");
    assert("before_after"@.len() == 12);
    assert("beforeafter"@.len() == 11);
    assert("before-after"@.len() == 12);
    assert("recent"@.len() == 6);
    assert("historical"@.len() == 10);
    assert("hist"@.len() == 4);
}

impl ScanMode {
    /// Reads a mode name in any ASCII case.
    pub fn parse(s: &str) -> (r: Option<ScanMode>)
        ensures
            r == scan_mode_named(ascii_lower(s@)),
    {
        let v = chars_of(s);
        let n = to_ascii_lower(&v);
        if eq_str(&n, "before_after") || eq_str(&n, "beforeafter") || eq_str(&n, "before-after") || eq_str(
            &n,
            "recent",
        ) {
            Some(ScanMode::BeforeAfter)
        } else if eq_str(&n, "historical") || eq_str(&n, "hist") {
            Some(ScanMode::Historical)
        } else {
            None
        }
    }
}

/// A planned acquisition window for one sensor family.
#[derive(Debug, Clone)]
pub struct AcqWindow {
    pub sensor: String,
    /// Inclusive ISO start date.
    pub start: String,
    /// Inclusive ISO end date.
    pub end: String,
    /// `pre_event`, `post_event` or the year.
    pub label: String,
}

/// The full acquisition plan an orchestrator executes.
#[derive(Debug, Clone)]
pub struct ScanPlan {
    pub mode: String,
    pub intent: String,
    pub windows: Vec<AcqWindow>,
    pub min_scenes: usize,
    pub target_scenes: usize,
    pub batch_size: usize,
    pub want_night_pass: bool,
    pub notes: String,
}

/// The year-ranking strategy that serves a scan intent.
pub open spec fn intent_to_ll_spec(intent: ScanIntent) -> Seq<char> {
    match intent {
        ScanIntent::ZebraClarity => "zebra_clarity"@,
        ScanIntent::SedimentPlume => "event_response"@,
        ScanIntent::Bathymetry | ScanIntent::DeepWreck | ScanIntent::ThermalFront
        | ScanIntent::HeatPattern => "low_water_wreck"@,
        ScanIntent::Hydrocarbon | ScanIntent::SunGlint => "generic"@,
    }
}

/// The name of the year-ranking strategy that serves a scan intent.
pub fn intent_to_ll(intent: ScanIntent) -> (r: String)
    ensures
        r@ == intent_to_ll_spec(intent),
{
    let s = match intent {
        ScanIntent::ZebraClarity => "zebra_clarity",
        ScanIntent::SedimentPlume => "event_response",
        ScanIntent::Bathymetry | ScanIntent::DeepWreck | ScanIntent::ThermalFront
        | ScanIntent::HeatPattern => "low_water_wreck",
        ScanIntent::Hydrocarbon | ScanIntent::SunGlint => "generic",
    };
    String::from_str(s)
}

pub open spec fn seq_min(s: Seq<u32>) -> u32
    decreases s.len(),
{
    if s.len() <= 1 {
        s[0]
    } else {
        let m = seq_min(s.drop_last());
        if s.last() < m { s.last() } else { m }
    }
}

pub open spec fn seq_max(s: Seq<u32>) -> u32
    decreases s.len(),
{
    if s.len() <= 1 {
        s[0]
    } else {
        let m = seq_max(s.drop_last());
        if s.last() > m { s.last() } else { m }
    }
}

/// First and last month of a season; the whole year for an empty list.
pub open spec fn season_bounds_spec(months: Seq<u32>) -> (u32, u32) {
    if months.len() == 0 {
        (1, 12)
    } else {
        (seq_min(months), seq_max(months))
    }
}

/// First and last month of a season; the whole year for an empty list.
pub fn season_bounds(months: &Vec<u32>) -> (r: (u32, u32))
    ensures
        r == season_bounds_spec(months@),
        months.len() > 0 ==> forall|k: int| 0 <= k < months.len() ==> r.0 <= #[trigger] months@[k] <= r.1,
{
    if months.len() == 0 {
        return (1, 12);
    }
    let mut lo = months[0];
    let mut hi = months[0];
    let mut i: usize = 1;
    assert(months@.take(1).drop_last().len() == 0);
    while i < months.len()
        invariant
            1 <= i <= months.len(),
            lo == seq_min(months@.take(i as int)),
            hi == seq_max(months@.take(i as int)),
            forall|k: int| 0 <= k < i ==> lo <= #[trigger] months@[k] <= hi,
        decreases months.len() - i,
    {
        assert(months@.take(i + 1).drop_last() =~= months@.take(i as int));
        if months[i] < lo {
            lo = months[i];
        }
        if months[i] > hi {
            hi = months[i];
        }
        i = i + 1;
    }
    assert(months@.take(months.len() as int) =~= months@);
    (lo, hi)
}

/// The text of an integer as `Display` writes it.
pub open spec fn int_text(n: int) -> Seq<char> {
    signed_padded(n, 0)
}

/// Two-digit month text.
pub open spec fn month_text(m: u32) -> Seq<char> {
    zero_pad(decimal(m as nat), 2)
}

/// One planned window as plain text: (sensor, start, end, label).
pub type WindowView = (Seq<char>, Seq<char>, Seq<char>, Seq<char>);

pub open spec fn window_view(w: AcqWindow) -> WindowView {
    (w.sensor@, w.start@, w.end@, w.label@)
}

pub open spec fn window_views(ws: Seq<AcqWindow>) -> Seq<WindowView> {
    ws.map_values(|w: AcqWindow| window_view(w))
}

/// The pre- and post-event windows for one sensor around an event in `year`.
pub open spec fn bracket_windows(sensor: Seq<char>, sink: Seq<char>, year: i32, today: Seq<char>) -> Seq<WindowView> {
    seq![
        (sensor, int_text(year - 2) + "-01-01"@, int_text(year - 1) + "-12-31"@, "pre_event"@),
        (sensor, sink, today, "post_event"@),
    ]
}

/// The years served for one sensor: the intent's ranking, or the most recent
/// years where the ranking has none inside the sensor's archive.
pub open spec fn sensor_years(basin: LakeBasin, sensor: Seq<char>, intent: ScanIntent, this_year: i32) -> Seq<i32> {
    let fam = sensor_from_lowercase(lowercase_of(sensor));
    let ll = intent_from_normalized(intent_to_ll_spec(intent));
    let ys = select_years_spec(basin, fam, ll, 8, this_year);
    if ys.len() == 0 {
        select_years_spec(basin, fam, lake_levels::ScanIntent::Generic, 8, this_year)
    } else {
        ys
    }
}

/// One window per served year, restricted to the season's first and last month.
pub open spec fn year_windows(sensor: Seq<char>, years: Seq<i32>, bounds: (u32, u32)) -> Seq<WindowView> {
    years.map_values(
        |y: i32|
            (
                sensor,
                int_text(y as int) + "-"@ + month_text(bounds.0) + "-01"@,
                int_text(y as int) + "-"@ + month_text(bounds.1) + "-28"@,
                int_text(y as int),
            ),
    )
}

pub open spec fn historical_windows(
    basin: LakeBasin,
    sensors: Seq<Seq<char>>,
    intent: ScanIntent,
    this_year: i32,
) -> Seq<WindowView>
    decreases sensors.len(),
{
    if sensors.len() == 0 {
        Seq::empty()
    } else {
        historical_windows(basin, sensors.drop_last(), intent, this_year) + year_windows(
            sensors.last(),
            sensor_years(basin, sensors.last(), intent, this_year),
            season_bounds_spec(season_months_spec(intent)),
        )
    }
}

pub open spec fn bracket_all(sensors: Seq<Seq<char>>, sink: Seq<char>, year: i32, today: Seq<char>) -> Seq<
    WindowView,
>
    decreases sensors.len(),
{
    if sensors.len() == 0 {
        Seq::empty()
    } else {
        bracket_all(sensors.drop_last(), sink, year, today) + bracket_windows(sensors.last(), sink, year, today)
    }
}

/// The windows of a plan. `sink` is the event date text with its year, where
/// it was given and reads as a date; `this_year` and `today` are the clock.
pub open spec fn plan_windows(
    mode: ScanMode,
    basin: LakeBasin,
    intent: ScanIntent,
    sensors: Seq<Seq<char>>,
    sink: Option<(Seq<char>, i32)>,
    this_year: i32,
    today: Seq<char>,
) -> Seq<WindowView> {
    match mode {
        ScanMode::BeforeAfter => match sink {
            Some((text, year)) => bracket_all(sensors, text, year, today),
            None => Seq::empty(),
        },
        ScanMode::Historical => historical_windows(basin, sensors, intent, this_year),
    }
}

/// The earliest and latest of a non-empty list of months are months of the
/// list, and every month of the list lies between them.
proof fn lemma_season_extremes(s: Seq<u32>)
    requires
        s.len() > 0,
    ensures
        s.contains(seq_min(s)),
        s.contains(seq_max(s)),
        forall|k: int| 0 <= k < s.len() ==> seq_min(s) <= #[trigger] s[k] <= seq_max(s),
    decreases s.len(),
{
    if s.len() == 1 {
        assert(s[0] == seq_min(s));
        assert(s[0] == seq_max(s));
    } else {
        let p = s.drop_last();
        lemma_season_extremes(p);
        let last = s.len() - 1;
        assert forall|k: int| 0 <= k < s.len() implies seq_min(s) <= #[trigger] s[k] <= seq_max(s) by {
            if k < last {
                assert(s[k] == p[k]);
            }
        }
        if s[last] < seq_min(p) {
            assert(s[last] == seq_min(s));
        } else {
            let j = choose|j: int| 0 <= j < p.len() && p[j] == seq_min(p);
            assert(s[j] == seq_min(s));
        }
        if s[last] > seq_max(p) {
            assert(s[last] == seq_max(s));
        } else {
            let j = choose|j: int| 0 <= j < p.len() && p[j] == seq_max(p);
            assert(s[j] == seq_max(s));
        }
    }
}

/// A window spans the season from month `first` to month `last` of the year
/// it is labelled with: it starts on the first of `first` and ends on the
/// 28th of `last`.
pub open spec fn spans_season(w: WindowView, first: u32, last: u32) -> bool {
    &&& w.1 == w.3 + "-"@ + month_text(first) + "-01"@
    &&& w.2 == w.3 + "-"@ + month_text(last) + "-28"@
}

/// For a non-empty season, the windows built for a list of years cover the
/// whole season in each year: one window per year, in order, labelled with the
/// year, starting on the first of the season's earliest month and ending on the
/// 28th of its latest month.
pub proof fn lemma_year_windows_span_season(sensor: Seq<char>, years: Seq<i32>, months: Seq<u32>) -> (bounds: (u32, u32))
    requires
        months.len() > 0,
    ensures
        months.contains(bounds.0),
        months.contains(bounds.1),
        forall|k: int| 0 <= k < months.len() ==> bounds.0 <= #[trigger] months[k] <= bounds.1,
        year_windows(sensor, years, season_bounds_spec(months)).len() == years.len(),
        forall|i: int|
            0 <= i < years.len() ==> {
                let w = #[trigger] year_windows(sensor, years, season_bounds_spec(months))[i];
                &&& w.0 == sensor
                &&& w.3 == int_text(years[i] as int)
                &&& spans_season(w, bounds.0, bounds.1)
            },
{
    lemma_season_extremes(months);
    (seq_min(months), seq_max(months))
}

/// Every window of a historical plan is for one of the requested sensors and
/// spans the intent's season in the year it is labelled with: from the first of
/// the season's earliest month to the 28th of its latest month.
proof fn lemma_historical_windows_span_season(
    basin: LakeBasin,
    sensors: Seq<Seq<char>>,
    intent: ScanIntent,
    this_year: i32,
    first: u32,
    last: u32,
)
    requires
        season_bounds_spec(season_months_spec(intent)) == (first, last),
    ensures
        forall|i: int|
            0 <= i < historical_windows(basin, sensors, intent, this_year).len() ==> {
                let w = #[trigger] historical_windows(basin, sensors, intent, this_year)[i];
                sensors.contains(w.0) && spans_season(w, first, last)
            },
    decreases sensors.len(),
{
    if sensors.len() > 0 {
        let init = sensors.drop_last();
        lemma_historical_windows_span_season(basin, init, intent, this_year, first, last);
        let prev = historical_windows(basin, init, intent, this_year);
        let sensor = sensors.last();
        let ys = sensor_years(basin, sensor, intent, this_year);
        let yw = year_windows(sensor, ys, (first, last));
        let all = historical_windows(basin, sensors, intent, this_year);
        assert(all == prev + yw);
        assert forall|i: int| 0 <= i < all.len() implies {
            let w = #[trigger] all[i];
            sensors.contains(w.0) && spans_season(w, first, last)
        } by {
            if i < prev.len() {
                assert(all[i] == prev[i]);
                let j = choose|j: int| 0 <= j < init.len() && init[j] == prev[i].0;
                assert(sensors[j] == init[j]);
            } else {
                let k = i - prev.len();
                assert(all[i] == yw[k]);
                assert(sensors[sensors.len() - 1] == sensor);
            }
        }
    }
}

/// Every window of a historical plan is for one of the requested sensors and
/// spans the intent's season in the year it is labelled with, from the first
/// of the season's earliest month to the 28th of its latest month: `bounds`
/// are those two months, each a month of the season, with every month of the
/// season between them.
pub proof fn lemma_historical_plan_spans_season(
    basin: LakeBasin,
    intent: ScanIntent,
    sensors: Seq<Seq<char>>,
    sink: Option<(Seq<char>, i32)>,
    this_year: i32,
    today: Seq<char>,
) -> (bounds: (u32, u32))
    ensures
        season_months_spec(intent).contains(bounds.0),
        season_months_spec(intent).contains(bounds.1),
        forall|k: int|
            0 <= k < season_months_spec(intent).len() ==> bounds.0 <= #[trigger] season_months_spec(intent)[k] <= bounds.1,
        forall|i: int|
            0 <= i < plan_windows(ScanMode::Historical, basin, intent, sensors, sink, this_year, today).len() ==> {
                let w = #[trigger] plan_windows(ScanMode::Historical, basin, intent, sensors, sink, this_year, today)[i];
                sensors.contains(w.0) && spans_season(w, bounds.0, bounds.1)
            },
{
    let months = season_months_spec(intent);
    assert(months.len() > 0);
    lemma_season_extremes(months);
    let bounds = (seq_min(months), seq_max(months));
    lemma_historical_windows_span_season(basin, sensors, intent, this_year, bounds.0, bounds.1);
    bounds
}

pub open spec fn mode_name(m: ScanMode) -> Seq<char> {
    match m {
        ScanMode::BeforeAfter => "BeforeAfter"@,
        ScanMode::Historical => "Historical"@,
    }
}

pub open spec fn intent_name(i: ScanIntent) -> Seq<char> {
    match i {
        ScanIntent::Bathymetry => "Bathymetry"@,
        ScanIntent::ZebraClarity => "ZebraClarity"@,
        ScanIntent::SedimentPlume => "SedimentPlume"@,
        ScanIntent::ThermalFront => "ThermalFront"@,
        ScanIntent::HeatPattern => "HeatPattern"@,
        ScanIntent::Hydrocarbon => "Hydrocarbon"@,
        ScanIntent::SunGlint => "SunGlint"@,
        ScanIntent::DeepWreck => "DeepWreck"@,
    }
}

fn mode_name_exec(m: ScanMode) -> (r: String)
    ensures
        r@ == mode_name(m),
{
    match m {
        ScanMode::BeforeAfter => String::from_str("BeforeAfter"),
        ScanMode::Historical => String::from_str("Historical"),
    }
}

fn intent_name_exec(i: ScanIntent) -> (r: String)
    ensures
        r@ == intent_name(i),
{
    let s = match i {
        ScanIntent::Bathymetry => "Bathymetry",
        ScanIntent::ZebraClarity => "ZebraClarity",
        ScanIntent::SedimentPlume => "SedimentPlume",
        ScanIntent::ThermalFront => "ThermalFront",
        ScanIntent::HeatPattern => "HeatPattern",
        ScanIntent::Hydrocarbon => "Hydrocarbon",
        ScanIntent::SunGlint => "SunGlint",
        ScanIntent::DeepWreck => "DeepWreck",
    };
    String::from_str(s)
}

fn int_text_exec(n: i32) -> (r: Vec<char>)
    ensures
        r@ == int_text(n as int),
{
    signed_padded_exec(n as i64, 0)
}

fn text_concat(a: &Vec<char>, b: &str) -> (r: Vec<char>)
    ensures
        r@ == a@ + b@,
{
    let mut v = copy_of(a);
    append_chars(&mut v, &chars_of(b));
    v
}

fn copy_of(a: &Vec<char>) -> (r: Vec<char>)
    ensures
        r@ == a@,
{
    crate::text::copy_chars(a)
}

fn bracket_for(sensor: &str, sink: &str, year: i32, today: &str, out: &mut Vec<AcqWindow>)
    requires
        year >= i32::MIN + 2,
    ensures
        window_views(final(out)@) == window_views(old(out)@) + bracket_windows(sensor@, sink@, year, today@),
{
    let pre_start = text_concat(&int_text_exec(year - 2), "-01-01");
    let pre_end = text_concat(&int_text_exec(year - 1), "-12-31");
    let ghost before = out@;
    out.push(
        AcqWindow {
            sensor: String::from_str(sensor),
            start: string_of(&pre_start),
            end: string_of(&pre_end),
            label: String::from_str("pre_event"),
        },
    );
    out.push(
        AcqWindow {
            sensor: String::from_str(sensor),
            start: String::from_str(sink),
            end: String::from_str(today),
            label: String::from_str("post_event"),
        },
    );
    assert(window_views(out@) =~= window_views(before) + bracket_windows(sensor@, sink@, year, today@));
}

fn years_for(sensor: &str, basin: LakeBasin, intent: ScanIntent, this_year: i32) -> (r: Vec<i32>)
    requires
        this_year > i32::MIN,
    ensures
        r@ == sensor_years(basin, sensor@, intent, this_year),
{
    let fam = SensorFamily::from_str(sensor);
    let ll_name = intent_to_ll(intent);
    let ll = lake_levels::ScanIntent::from_normalized(&chars_of(ll_name.as_str()));
    let years = select_years_in(basin, fam, ll, 8, this_year);
    if years.len() == 0 {
        select_years_in(basin, fam, lake_levels::ScanIntent::Generic, 8, this_year)
    } else {
        years
    }
}

fn year_windows_for(sensor: &str, years: &Vec<i32>, bounds: (u32, u32), out: &mut Vec<AcqWindow>)
    ensures
        window_views(final(out)@) == window_views(old(out)@) + year_windows(sensor@, years@, bounds),
{
    let m0 = zero_pad_exec(&decimal_exec(bounds.0 as u64), 2);
    let m1 = zero_pad_exec(&decimal_exec(bounds.1 as u64), 2);
    let ghost start_len = out@.len();
    let ghost before = out@;
    let mut i: usize = 0;
    while i < years.len()
        invariant
            i <= years.len(),
            m0@ == month_text(bounds.0),
            m1@ == month_text(bounds.1),
            window_views(out@) == window_views(before) + year_windows(sensor@, years@.take(i as int), bounds),
        decreases years.len() - i,
    {
        let y = years[i];
        let yt = int_text_exec(y);
        let mut start = text_concat(&yt, "-");
        append_chars(&mut start, &m0);
        append_chars(&mut start, &chars_of("-01"));
        let mut end = text_concat(&yt, "-");
        append_chars(&mut end, &m1);
        append_chars(&mut end, &chars_of("-28"));
        let ghost prev = out@;
        out.push(
            AcqWindow {
                sensor: String::from_str(sensor),
                start: string_of(&start),
                end: string_of(&end),
                label: string_of(&yt),
            },
        );
        assert(years@.take(i + 1) =~= years@.take(i as int).push(y));
        assert(window_views(out@) =~= window_views(prev).push(window_view(out@.last())));
        assert(year_windows(sensor@, years@.take(i + 1), bounds) =~= year_windows(
            sensor@,
            years@.take(i as int),
            bounds,
        ).push(window_view(out@.last())));
        i = i + 1;
    }
    assert(years@.take(years.len() as int) =~= years@);
}

pub open spec fn str_views(s: Seq<&str>) -> Seq<Seq<char>> {
    s.map_values(|x: &str| x@)
}

/// The plan for given clock values: `sink` is the event date text with its
/// year, `this_year` the current year and `today` the current date text.
pub fn build_plan_at(
    mode: ScanMode,
    basin: LakeBasin,
    intent: ScanIntent,
    sensors: &[&str],
    sink: Option<(&str, i32)>,
    want_night_pass: bool,
    this_year: i32,
    today: &str,
) -> (r: ScanPlan)
    requires
        this_year > i32::MIN,
        sink matches Some((_, y)) ==> y >= i32::MIN + 2,
    ensures
        r.mode@ == mode_name(mode),
        r.intent@ == intent_name(intent),
        window_views(r.windows@) == plan_windows(
            mode,
            basin,
            intent,
            str_views(sensors@),
            match sink {
                Some((t, y)) => Some((t@, y)),
                None => None,
            },
            this_year,
            today@,
        ),
        r.min_scenes == MIN_SCENES,
        r.target_scenes == TARGET_SCENES,
        r.batch_size == BATCH_SIZE,
        r.want_night_pass == want_night_pass,
{
    let mut windows: Vec<AcqWindow> = Vec::new();
    let season = intent_season_months(intent);
    let ghost sv = str_views(sensors@);
    match mode {
        ScanMode::BeforeAfter => {
            match sink {
                Some((sd, year)) => {
                    let mut i: usize = 0;
                    while i < sensors.len()
                        invariant
                            i <= sensors.len(),
                            sv == str_views(sensors@),
                            year >= i32::MIN + 2,
                            window_views(windows@) == bracket_all(sv.take(i as int), sd@, year, today@),
                        decreases sensors.len() - i,
                    {
                        assert(sv.take(i + 1).drop_last() =~= sv.take(i as int));
                        bracket_for(sensors[i], sd, year, today, &mut windows);
                        i = i + 1;
                    }
                    assert(sv.take(sensors.len() as int) =~= sv);
                },
                None => {
                    assert(window_views(windows@) =~= Seq::<WindowView>::empty());
                },
            }
        },
        ScanMode::Historical => {
            let bounds = season_bounds(&season);
            let mut i: usize = 0;
            while i < sensors.len()
                invariant
                    i <= sensors.len(),
                    this_year > i32::MIN,
                    sv == str_views(sensors@),
                    bounds == season_bounds_spec(season_months_spec(intent)),
                    window_views(windows@) == historical_windows(basin, sv.take(i as int), intent, this_year),
                decreases sensors.len() - i,
            {
                assert(sv.take(i + 1).drop_last() =~= sv.take(i as int));
                let years = years_for(sensors[i], basin, intent, this_year);
                year_windows_for(sensors[i], &years, bounds, &mut windows);
                i = i + 1;
            }
            assert(sv.take(sensors.len() as int) =~= sv);
        },
    }
    ScanPlan {
        mode: mode_name_exec(mode),
        intent: intent_name_exec(intent),
        windows,
        min_scenes: MIN_SCENES,
        target_scenes: TARGET_SCENES,
        batch_size: BATCH_SIZE,
        want_night_pass,
        notes: String::from_str(
            "Qualify each scene: weather + day/night pass geometry + buoy wave/wind + intent fitness. Batch until target_scenes qualify; begin scans at min_scenes.",
        ),
    }
}

/// The year of a `YYYY-MM-DD` date text, as chrono reads it with
/// `NaiveDate::parse_from_str(s, "%Y-%m-%d")`; `None` where it does not read.
pub uninterp spec fn iso_date_year_of(s: Seq<char>) -> Option<i32>;

/// The event date text with the year chrono reads in it, where it reads.
pub open spec fn sink_reading(sink_date: Option<&str>) -> Option<(Seq<char>, i32)> {
    match sink_date {
        Some(t) => match iso_date_year_of(t@) {
            Some(y) => Some((t@, y)),
            None => None,
        },
        None => None,
    }
}

/// `chrono::NaiveDate::parse_from_str(s, "%Y-%m-%d")`, keeping the year. The
/// result is the named `iso_date_year_of` of the text; a year chrono gives lies
/// in its representable range.
#[verifier::external_body]
fn parse_iso_date_year(s: &str) -> (r: Option<i32>)
    ensures
        r == iso_date_year_of(s@),
        r matches Some(y) ==> -262143 <= y <= 262142,
{
    chrono::NaiveDate::parse_from_str(s, "%Y-%m-%d").ok().map(|d| d.year())
}

/// Today's date on the local clock as `YYYY-MM-DD` text
/// (`chrono::Local::now().naive_local().date().format("%Y-%m-%d")`); nothing is
/// claimed of it: it is the time.
#[verifier::external_body]
fn today_text() -> (r: String) {
    chrono::Local::now().naive_local().date().format("%Y-%m-%d").to_string()
}

/// Builds the acquisition plan now. For `BeforeAfter` the event date must read
/// as `YYYY-MM-DD` (else the plan has no windows); the windows are those of
/// `build_plan_at` for the current year and date.
pub fn build_plan(
    mode: ScanMode,
    basin: LakeBasin,
    intent: ScanIntent,
    sensors: &[&str],
    sink_date: Option<&str>,
    want_night_pass: bool,
) -> (r: ScanPlan)
    ensures
        r.mode@ == mode_name(mode),
        r.intent@ == intent_name(intent),
        exists|this_year: i32, today: Seq<char>|
            window_views(r.windows@) == #[trigger] plan_windows(
                mode,
                basin,
                intent,
                str_views(sensors@),
                sink_reading(sink_date),
                this_year,
                today,
            ),
        r.min_scenes == MIN_SCENES,
        r.target_scenes == TARGET_SCENES,
        r.batch_size == BATCH_SIZE,
        r.want_night_pass == want_night_pass,
{
    let this_year = current_year();
    let today = today_text();
    let sink: Option<(&str, i32)> = match sink_date {
        Some(t) => match parse_iso_date_year(t) {
            Some(y) => Some((t, y)),
            None => None,
        },
        None => None,
    };
    build_plan_at(mode, basin, intent, sensors, sink, want_night_pass, this_year, today.as_str())
}

// ── Qualifying a scene ──────────────────────────────────────────────────────

/// Why a scene was kept or turned away.
#[derive(Debug, Clone, Copy, PartialEq, Eq, Structural)]
pub enum VerdictReason {
    /// The buoy reported rough water.
    RoughWater,
    /// The intent fitness fell short of the minimum.
    LowFitness,
    Qualified,
}

/// A scene qualifies when its intent fitness clears the minimum and the
/// water was calm; missing buoy data does not reject it. Rough water is
/// reported before a low fitness.
pub fn scene_verdict(buoy_calm: Option<bool>, fitness_ok: bool) -> (r: (bool, VerdictReason))
    ensures
        r.0 == (fitness_ok && buoy_calm != Some(false)),
        r.1 == (if buoy_calm == Some(false) {
            VerdictReason::RoughWater
        } else if !fitness_ok {
            VerdictReason::LowFitness
        } else {
            VerdictReason::Qualified
        }),
{
    let calm_ok = match buoy_calm {
        Some(c) => c,
        None => true,
    };
    let reason = if !calm_ok {
        VerdictReason::RoughWater
    } else if !fitness_ok {
        VerdictReason::LowFitness
    } else {
        VerdictReason::Qualified
    };
    (fitness_ok && calm_ok, reason)
}

} // verus!
