//! Environmental-condition gating for scene selection: the thermal regime a
//! wreck's depth puts it in, the post-storm and spring-runoff windows in a
//! series of days, and the season each scan intent wants.
use vstd::prelude::*;
use crate::text::{ascii_lower, chars_of, to_ascii_lower, eq_str};
use crate::lake_levels;

verus! {

// ── Thermal regime ──────────────────────────────────────────────────────────

/// Nominal sunlight-penetration depth (ft) outside the seasonal table.
pub const NOMINAL_PHOTIC_DEPTH_FT: u32 = 200;

pub open spec fn photic_depth_spec(month: u32) -> u32 {
    if month == 12 || month == 1 || month == 2 {
        90
    } else if 3 <= month <= 5 {
        130
    } else if 6 <= month <= 8 {
        220
    } else if 9 <= month <= 11 {
        160
    } else {
        NOMINAL_PHOTIC_DEPTH_FT
    }
}

/// Seasonal depth (ft) of the lit, warm layer: a wreck below it is a permanent cold sink.
pub fn photic_depth_ft_for_month(month: u32) -> (r: u32)
    ensures
        r == photic_depth_spec(month),
{
    if month == 12 || month == 1 || month == 2 {
        90
    } else if 3 <= month && month <= 5 {
        130
    } else if 6 <= month && month <= 8 {
        220
    } else if 9 <= month && month <= 11 {
        160
    } else {
        NOMINAL_PHOTIC_DEPTH_FT
    }
}

/// Thermal regime of a wreck for its depth and the season.
#[derive(Debug, Clone, Copy, PartialEq, Eq, Structural)]
pub enum ThermalRegime {
    /// Below the lit, warm layer: a persistent cold sink, readable any time.
    AlwaysCold,
    /// Within the lit layer: heats by day, cools by night.
    SunCycling,
}

pub open spec fn preferred_pass_spec(regime: ThermalRegime) -> Seq<char> {
    match regime {
        ThermalRegime::AlwaysCold => "any_persistent_cold_sink"@,
        ThermalRegime::SunCycling => "thermal_extreme_afternoon_or_predawn"@,
    }
}

/// Best time of day to image a wreck in the given regime.
pub fn preferred_pass(regime: ThermalRegime) -> (r: &'static str)
    ensures
        r@ == preferred_pass_spec(regime),
{
    match regime {
        ThermalRegime::AlwaysCold => "any_persistent_cold_sink",
        ThermalRegime::SunCycling => "thermal_extreme_afternoon_or_predawn",
    }
}

// ── Day conditions ──────────────────────────────────────────────────────────

/// Per-day weather classification.
#[derive(Debug, Clone, Copy, PartialEq, Eq, Structural)]
pub enum DayCondition {
    /// Low wind, no precipitation.
    Calm,
    /// Active storm.
    Storm,
    /// The given number of days after a storm.
    PostStorm(u32),
    /// Spring snowmelt/runoff.
    SpringRunoff,
    /// Between calm and storm.
    Transitional,
}

/// Day `t` lies `k` days after some storm day of the series.
pub open spec fn storm_before(dates: Seq<i32>, cond: Seq<DayCondition>, t: int, k: int) -> bool {
    exists|j: int| 0 <= j < dates.len() && cond[j] == DayCondition::Storm && dates[j] + k == dates[t]
}

/// `t` is the first position of the series holding its date.
pub open spec fn first_of_date(dates: Seq<i32>, t: int) -> bool {
    forall|j: int| 0 <= j < t ==> dates[j] != dates[t]
}

/// Day `t` is tagged `k` days after a storm: `k` in `1..=window`, a storm `k`
/// days earlier, and `t` the first day of the series with its date.
pub open spec fn tag_applies(dates: Seq<i32>, cond: Seq<DayCondition>, window: u32, t: int, k: int) -> bool {
    1 <= k <= window && first_of_date(dates, t) && storm_before(dates, cond, t, k)
}

/// The condition of day `t` after post-storm tagging: storms and runoff days stay
/// as they are; any other day becomes `PostStorm(k)` for the smallest applicable
/// `k`, keeping an existing smaller post-storm count.
pub open spec fn tagged_condition(dates: Seq<i32>, cond: Seq<DayCondition>, window: u32, t: int) -> DayCondition {
    let c = cond[t];
    if c == DayCondition::Storm || c == DayCondition::SpringRunoff {
        c
    } else if exists|k: int| tag_applies(dates, cond, window, t, k) {
        let k = choose|k: int|
            tag_applies(dates, cond, window, t, k) && forall|k2: int|
                tag_applies(dates, cond, window, t, k2) ==> k <= k2;
        match c {
            DayCondition::PostStorm(o) => if o <= k {
                c
            } else {
                DayCondition::PostStorm(k as u32)
            },
            _ => DayCondition::PostStorm(k as u32),
        }
    } else {
        c
    }
}

/// The smallest tag offset for day `t`, found by looking at every storm day.
fn min_storm_offset(dates: &Vec<i32>, cond: &Vec<DayCondition>, window: u32, t: usize) -> (r: Option<u32>)
    requires
        dates.len() == cond.len(),
        t < dates.len(),
        first_of_date(dates@, t as int),
    ensures
        match r {
            Some(k) => tag_applies(dates@, cond@, window, t as int, k as int) && forall|k2: int|
                tag_applies(dates@, cond@, window, t as int, k2) ==> k <= k2,
            None => forall|k: int| !tag_applies(dates@, cond@, window, t as int, k),
        },
{
    let mut best: Option<u32> = None;
    let mut j: usize = 0;
    while j < dates.len()
        invariant
            dates.len() == cond.len(),
            t < dates.len(),
            j <= dates.len(),
            first_of_date(dates@, t as int),
            match best {
                Some(k) => 1 <= k <= window && exists|j2: int|
                    0 <= j2 < j && cond@[j2] == DayCondition::Storm && dates@[j2] + k == dates@[t as int],
                None => true,
            },
            forall|j2: int|
                0 <= j2 < j && #[trigger] cond@[j2] == DayCondition::Storm && 1 <= dates@[t as int]
                    - dates@[j2] <= window ==> (best is Some && best->0 <= dates@[t as int] - dates@[j2]),
        decreases dates.len() - j,
    {
        if cond[j] == DayCondition::Storm {
            let diff: i64 = (dates[t] as i64) - (dates[j] as i64);
            if 1 <= diff && diff <= window as i64 {
                let k = diff as u32;
                match best {
                    Some(b) => {
                        if k < b {
                            best = Some(k);
                        }
                    },
                    None => {
                        best = Some(k);
                    },
                }
            }
        }
        j = j + 1;
    }
    match best {
        Some(k) => {
            assert(tag_applies(dates@, cond@, window, t as int, k as int));
        },
        None => {},
    }
    best
}

/// Tags the days after storms: day `t` of the series (dates as day numbers)
/// becomes `PostStorm(k)` when a storm lies `k` days before it, `1 <= k <=
/// window`, taking the smallest such `k`; storms and runoff days are never
/// re-tagged, and only the first day of a repeated date is tagged.
pub fn tag_post_storm(dates: &Vec<i32>, cond: &Vec<DayCondition>, window: u32) -> (r: Vec<DayCondition>)
    requires
        dates.len() == cond.len(),
    ensures
        r.len() == cond.len(),
        forall|t: int| 0 <= t < r.len() ==> r@[t] == tagged_condition(dates@, cond@, window, t),
{
    let mut out: Vec<DayCondition> = Vec::new();
    let mut t: usize = 0;
    while t < cond.len()
        invariant
            dates.len() == cond.len(),
            t <= cond.len(),
            out.len() == t,
            forall|i: int| 0 <= i < t ==> out@[i] == tagged_condition(dates@, cond@, window, i),
        decreases cond.len() - t,
    {
        let c = cond[t];
        let ghost tc = t as int;
        let mut first = true;
        let mut j: usize = 0;
        while j < t
            invariant
                dates.len() == cond.len(),
                t < dates.len(),
                j <= t,
                first == (forall|i: int| 0 <= i < j ==> dates@[i] != dates@[t as int]),
            decreases t - j,
        {
            if dates[j] == dates[t] {
                first = false;
            }
            j = j + 1;
        }
        let next = if c == DayCondition::Storm || c == DayCondition::SpringRunoff {
            c
        } else if !first {
            assert(forall|k: int| !tag_applies(dates@, cond@, window, tc, k));
            c
        } else {
            match min_storm_offset(dates, cond, window, t) {
                None => c,
                Some(k) => {
                    proof {
                        let kk = choose|k3: int|
                            tag_applies(dates@, cond@, window, tc, k3) && forall|k2: int|
                                tag_applies(dates@, cond@, window, tc, k2) ==> k3 <= k2;
                        assert(tag_applies(dates@, cond@, window, tc, k as int));
                        assert(kk <= k && k <= kk);
                    }
                    match c {
                        DayCondition::PostStorm(o) => if o <= k {
                            c
                        } else {
                            DayCondition::PostStorm(k)
                        },
                        _ => DayCondition::PostStorm(k),
                    }
                },
            }
        };
        assert(next == tagged_condition(dates@, cond@, window, tc));
        out.push(next);
        t = t + 1;
    }
    out
}

/// The date of the first day tagged one day after a storm.
pub fn first_post_storm_day(dates: &Vec<i32>, tagged: &Vec<DayCondition>) -> (r: Option<i32>)
    requires
        dates.len() == tagged.len(),
    ensures
        match r {
            Some(d) => exists|t: int|
                0 <= t < tagged.len() && tagged@[t] == DayCondition::PostStorm(1) && dates@[t] == d
                    && forall|s: int| 0 <= s < t ==> tagged@[s] != DayCondition::PostStorm(1),
            None => forall|t: int| 0 <= t < tagged.len() ==> tagged@[t] != DayCondition::PostStorm(1),
        },
{
    let mut i: usize = 0;
    while i < tagged.len()
        invariant
            dates.len() == tagged.len(),
            i <= tagged.len(),
            forall|s: int| 0 <= s < i ==> tagged@[s] != DayCondition::PostStorm(1),
        decreases tagged.len() - i,
    {
        if tagged[i] == DayCondition::PostStorm(1) {
            return Some(dates[i]);
        }
        i = i + 1;
    }
    None
}

/// The series position of the last storm on or before `date`, if any.
pub open spec fn last_storm_upto(dates: Seq<i32>, tagged: Seq<DayCondition>, date: i32, n: int) -> Option<int>
    decreases n,
{
    if n <= 0 {
        None
    } else if tagged[n - 1] == DayCondition::Storm && dates[n - 1] <= date {
        Some(n - 1)
    } else {
        last_storm_upto(dates, tagged, date, n - 1)
    }
}

/// Days from the last storm of the series on or before `date` (the last in
/// series order) to `date`; none when no storm precedes it.
pub fn days_since_last_storm(dates: &Vec<i32>, tagged: &Vec<DayCondition>, date: i32) -> (r: Option<i64>)
    requires
        dates.len() == tagged.len(),
    ensures
        r == (match last_storm_upto(dates@, tagged@, date, dates.len() as int) {
            Some(k) => Some((date - dates@[k]) as i64),
            None => None,
        }),
{
    let mut i: usize = dates.len();
    while i > 0
        invariant
            dates.len() == tagged.len(),
            i <= dates.len(),
            last_storm_upto(dates@, tagged@, date, dates.len() as int) == last_storm_upto(dates@, tagged@, date, i as int),
        decreases i,
    {
        if tagged[i - 1] == DayCondition::Storm && dates[i - 1] <= date {
            return Some(date as i64 - dates[i - 1] as i64);
        }
        i = i - 1;
    }
    None
}

/// The series position of the scene date's own day: the first day with that
/// date, or the last day of the series when the date is missing.
pub fn scene_day_index(dates: &Vec<i32>, date: i32) -> (r: usize)
    requires
        dates.len() > 0,
    ensures
        r < dates.len(),
        (exists|t: int| 0 <= t < dates.len() && dates@[t] == date) ==> dates@[r as int] == date && forall|t: int|
            0 <= t < r ==> dates@[t] != date,
        (forall|t: int| 0 <= t < dates.len() ==> dates@[t] != date) ==> r == dates.len() - 1,
{
    let mut i: usize = 0;
    while i < dates.len()
        invariant
            i <= dates.len(),
            forall|t: int| 0 <= t < i ==> dates@[t] != date,
        decreases dates.len() - i,
    {
        if dates[i] == date {
            return i;
        }
        i = i + 1;
    }
    dates.len() - 1
}

/// The dates of the spring-runoff days, in series order.
pub fn spring_runoff_dates(dates: &Vec<i32>, tagged: &Vec<DayCondition>) -> (r: Vec<i32>)
    requires
        dates.len() == tagged.len(),
    ensures
        r@ == runoff_dates_spec(dates@, tagged@),
{
    let mut out: Vec<i32> = Vec::new();
    let mut i: usize = 0;
    while i < tagged.len()
        invariant
            dates.len() == tagged.len(),
            i <= tagged.len(),
            out@ == runoff_dates_spec(dates@.take(i as int), tagged@.take(i as int)),
        decreases tagged.len() - i,
    {
        assert(dates@.take(i + 1).drop_last() =~= dates@.take(i as int));
        assert(tagged@.take(i + 1).drop_last() =~= tagged@.take(i as int));
        if tagged[i] == DayCondition::SpringRunoff {
            out.push(dates[i]);
        }
        i = i + 1;
    }
    assert(dates@.take(dates.len() as int) =~= dates@);
    assert(tagged@.take(tagged.len() as int) =~= tagged@);
    out
}

pub open spec fn runoff_dates_spec(dates: Seq<i32>, tagged: Seq<DayCondition>) -> Seq<i32>
    decreases dates.len(),
{
    if dates.len() == 0 || tagged.len() == 0 {
        Seq::empty()
    } else {
        let prev = runoff_dates_spec(dates.drop_last(), tagged.drop_last());
        if tagged.last() == DayCondition::SpringRunoff {
            prev.push(dates.last())
        } else {
            prev
        }
    }
}

// ── Condition suitability ───────────────────────────────────────────────────

/// Suitability (in tenths, 0–10) of a day's condition for a year-selection intent.
pub open spec fn suitability_tenths_spec(cond: DayCondition, intent: lake_levels::ScanIntent) -> u32 {
    match intent {
        lake_levels::ScanIntent::EventResponse => match cond {
            DayCondition::SpringRunoff => 10,
            DayCondition::PostStorm(k) => if k == 1 {
                9
            } else if k == 2 {
                7
            } else if k == 3 {
                5
            } else {
                4
            },
            DayCondition::Calm => 4,
            DayCondition::Transitional => 3,
            DayCondition::Storm => 1,
        },
        lake_levels::ScanIntent::ZebraClarity | lake_levels::ScanIntent::LowWaterWreck => match cond {
            DayCondition::Calm => 10,
            DayCondition::Transitional => 5,
            DayCondition::PostStorm(_) => 4,
            DayCondition::SpringRunoff => 2,
            DayCondition::Storm => 0,
        },
        _ => match cond {
            DayCondition::Calm => 10,
            DayCondition::Transitional => 6,
            DayCondition::SpringRunoff => 5,
            DayCondition::PostStorm(_) => 5,
            DayCondition::Storm => 2,
        },
    }
}

/// Suitability in tenths of a day's condition for an intent: plume work wants
/// spring runoff, then the first calm days after a storm; clarity and low-water
/// work want flat calm and are hurt by runoff turbidity.
pub fn condition_suitability_tenths(cond: DayCondition, intent: lake_levels::ScanIntent) -> (r: u32)
    ensures
        r == suitability_tenths_spec(cond, intent),
        r <= 10,
{
    match intent {
        lake_levels::ScanIntent::EventResponse => match cond {
            DayCondition::SpringRunoff => 10,
            DayCondition::PostStorm(k) => if k == 1 {
                9
            } else if k == 2 {
                7
            } else if k == 3 {
                5
            } else {
                4
            },
            DayCondition::Calm => 4,
            DayCondition::Transitional => 3,
            DayCondition::Storm => 1,
        },
        lake_levels::ScanIntent::ZebraClarity | lake_levels::ScanIntent::LowWaterWreck => match cond {
            DayCondition::Calm => 10,
            DayCondition::Transitional => 5,
            DayCondition::PostStorm(_) => 4,
            DayCondition::SpringRunoff => 2,
            DayCondition::Storm => 0,
        },
        _ => match cond {
            DayCondition::Calm => 10,
            DayCondition::Transitional => 6,
            DayCondition::SpringRunoff => 5,
            DayCondition::PostStorm(_) => 5,
            DayCondition::Storm => 2,
        },
    }
}

/// For plume work the post-storm window ranks by recency: runoff beats every
/// post-storm day, a nearer post-storm day is never worse than a later one, and
/// every post-storm day beats a storm.
pub proof fn lemma_plume_suitability_order(k1: u32, k2: u32)
    requires
        1 <= k1 <= k2,
    ensures
        suitability_tenths_spec(DayCondition::SpringRunoff, lake_levels::ScanIntent::EventResponse)
            > suitability_tenths_spec(DayCondition::PostStorm(k1), lake_levels::ScanIntent::EventResponse),
        suitability_tenths_spec(DayCondition::PostStorm(k1), lake_levels::ScanIntent::EventResponse)
            >= suitability_tenths_spec(DayCondition::PostStorm(k2), lake_levels::ScanIntent::EventResponse),
        suitability_tenths_spec(DayCondition::PostStorm(k2), lake_levels::ScanIntent::EventResponse)
            > suitability_tenths_spec(DayCondition::Storm, lake_levels::ScanIntent::EventResponse),
{
}

/// Clarity work ranks calm days above every other condition and runoff days
/// below every condition except storms.
pub proof fn lemma_clarity_suitability_order(c: DayCondition)
    requires
        c != DayCondition::Calm,
    ensures
        suitability_tenths_spec(DayCondition::Calm, lake_levels::ScanIntent::ZebraClarity)
            > suitability_tenths_spec(c, lake_levels::ScanIntent::ZebraClarity),
        c != DayCondition::SpringRunoff && c != DayCondition::Storm ==> suitability_tenths_spec(
            c,
            lake_levels::ScanIntent::ZebraClarity,
        ) > suitability_tenths_spec(DayCondition::SpringRunoff, lake_levels::ScanIntent::ZebraClarity),
{
}

// ── Scan intents and their seasons ──────────────────────────────────────────

/// What the operator is trying to detect on a pass.
#[derive(Debug, Clone, Copy, PartialEq, Eq, Structural)]
pub enum ScanIntent {
    Bathymetry,
    ZebraClarity,
    SedimentPlume,
    ThermalFront,
    HeatPattern,
    Hydrocarbon,
    SunGlint,
    DeepWreck,
}

pub open spec fn scan_intent_named(n: Seq<char>) -> Option<ScanIntent> {
    if n == "bathymetry"@ || n == "bathy"@ {
        Some(ScanIntent::Bathymetry)
    } else if n == "zebra_clarity"@ || n == "clarity"@ {
        Some(ScanIntent::ZebraClarity)
    } else if n == "sediment_plume"@ || n == "plume"@ {
        Some(ScanIntent::SedimentPlume)
    } else if n == "thermal_front"@ || n == "upwelling"@ {
        Some(ScanIntent::ThermalFront)
    } else if n == "heat_pattern"@ || n == "heat"@ {
        Some(ScanIntent::HeatPattern)
    } else if n == "hydrocarbon"@ || n == "oil"@ || n == "fuel"@ {
        Some(ScanIntent::Hydrocarbon)
    } else if n == "sun_glint"@ || n == "glint"@ {
        Some(ScanIntent::SunGlint)
    } else if n == "deep_wreck"@ || n == "cold_sink"@ {
        Some(ScanIntent::DeepWreck)
    } else {
        None
    }
}

/// The name an intent is written by: its variant name in snake case.
pub open spec fn scan_intent_key(i: ScanIntent) -> Seq<char> {
    match i {
        ScanIntent::Bathymetry => "bathymetry"@,
        ScanIntent::ZebraClarity => "zebra_clarity"@,
        ScanIntent::SedimentPlume => "sediment_plume"@,
        ScanIntent::ThermalFront => "thermal_front"@,
        ScanIntent::HeatPattern => "heat_pattern"@,
        ScanIntent::Hydrocarbon => "hydrocarbon"@,
        ScanIntent::SunGlint => "sun_glint"@,
        ScanIntent::DeepWreck => "deep_wreck"@,
    }
}

/// Every intent reads back from its own name.
pub proof fn lemma_scan_intent_key_reads_back(i: ScanIntent)
    ensures
        scan_intent_named(scan_intent_key(i)) == Some(i),
{
    reveal_strlit("bathymetry");
    reveal_strlit("zebra_clarity");
    reveal_strlit("sediment_plume");
    reveal_strlit("thermal_front");
    reveal_strlit("heat_pattern");
    reveal_strlit("hydrocarbon");
    reveal_strlit("sun_glint");
    reveal_strlit("deep_wreck");
    reveal_strlit("bathy");
    reveal_strlit("clarity");
    reveal_strlit("plume");
    reveal_strlit("upwelling");
    reveal_strlit("heat");
    reveal_strlit("oil");
    reveal_strlit("fuel");
    reveal_strlit("glint");
    reveal_strlit("cold_sink");
    assert("bathymetry"@.len() == 10);
    assert("zebra_clarity"@.len() == 13);
    assert("sediment_plume"@.len() == 14);
    assert("thermal_front"@.len() == 13);
    assert("heat_pattern"@.len() == 12);
    assert("hydrocarbon"@.len() == 11);
    assert("sun_glint"@.len() == 9);
    assert("deep_wreck"@.len() == 10);
    assert("bathy"@.len() == 5);
    assert("clarity"@.len() == 7);
    assert("plume"@.len() == 5);
    assert("upwelling"@.len() == 9);
    assert("heat"@.len() == 4);
    assert("oil"@.len() == 3);
    assert("fuel"@.len() == 4);
    assert("glint"@.len() == 5);
    assert("cold_sink"@.len() == 9);
    assert("bathymetry"@[0] != "deep_wreck"@[0]);
    assert("zebra_clarity"@[0] != "thermal_front"@[0]);
    assert("sun_glint"@[0] != "upwelling"@[0]);
    assert("sun_glint"@[0] != "cold_sink"@[0]);
    assert("bathy"@[0] != "plume"@[0]);
    assert("bathy"@[0] != "glint"@[0]);
    assert("plume"@[0] != "glint"@[0]);
    assert("upwelling"@[0] != "cold_sink"@[0]);
    assert("heat"@[0] != "fuel"@[0]);
}

impl ScanIntent {
    /// Reads an intent name or alias in any ASCII case.
    pub fn parse(s: &str) -> (r: Option<ScanIntent>)
        ensures
            r == scan_intent_named(ascii_lower(s@)),
    {
        let v = chars_of(s);
        let n = to_ascii_lower(&v);
        if eq_str(&n, "bathymetry") || eq_str(&n, "bathy") {
            Some(ScanIntent::Bathymetry)
        } else if eq_str(&n, "zebra_clarity") || eq_str(&n, "clarity") {
            Some(ScanIntent::ZebraClarity)
        } else if eq_str(&n, "sediment_plume") || eq_str(&n, "plume") {
            Some(ScanIntent::SedimentPlume)
        } else if eq_str(&n, "thermal_front") || eq_str(&n, "upwelling") {
            Some(ScanIntent::ThermalFront)
        } else if eq_str(&n, "heat_pattern") || eq_str(&n, "heat") {
            Some(ScanIntent::HeatPattern)
        } else if eq_str(&n, "hydrocarbon") || eq_str(&n, "oil") || eq_str(&n, "fuel") {
            Some(ScanIntent::Hydrocarbon)
        } else if eq_str(&n, "sun_glint") || eq_str(&n, "glint") {
            Some(ScanIntent::SunGlint)
        } else if eq_str(&n, "deep_wreck") || eq_str(&n, "cold_sink") {
            Some(ScanIntent::DeepWreck)
        } else {
            None
        }
    }
}

pub open spec fn season_months_spec(intent: ScanIntent) -> Seq<u32> {
    match intent {
        ScanIntent::Bathymetry => seq![5u32, 6, 9, 10],
        ScanIntent::ZebraClarity => seq![7u32, 8, 9],
        ScanIntent::SedimentPlume => seq![3u32, 4, 5],
        ScanIntent::ThermalFront => seq![6u32, 7, 8, 9],
        ScanIntent::HeatPattern => seq![6u32, 7, 8],
        ScanIntent::Hydrocarbon => seq![4u32, 5, 6, 7, 8, 9, 10],
        ScanIntent::SunGlint => seq![4u32, 5, 6, 7, 8, 9, 10],
        ScanIntent::DeepWreck => seq![6u32, 7, 8, 9],
    }
}

/// The months (Great Lakes) in which an intent's signal is best read.
pub fn intent_season_months(intent: ScanIntent) -> (r: Vec<u32>)
    ensures
        r@ == season_months_spec(intent),
{
    let v: Vec<u32> = match intent {
        ScanIntent::Bathymetry => vec![5, 6, 9, 10],
        ScanIntent::ZebraClarity => vec![7, 8, 9],
        ScanIntent::SedimentPlume => vec![3, 4, 5],
        ScanIntent::ThermalFront => vec![6, 7, 8, 9],
        ScanIntent::HeatPattern => vec![6, 7, 8],
        ScanIntent::Hydrocarbon => vec![4, 5, 6, 7, 8, 9, 10],
        ScanIntent::SunGlint => vec![4, 5, 6, 7, 8, 9, 10],
        ScanIntent::DeepWreck => vec![6, 7, 8, 9],
    };
    assert(v@ =~= season_months_spec(intent));
    v
}

pub open spec fn seasonal_tenths_spec(month: u32) -> u32 {
    if month == 9 || month == 10 {
        10
    } else if month == 11 {
        8
    } else if month == 4 || month == 5 {
        9
    } else if month == 6 {
        7
    } else if month == 7 || month == 8 {
        6
    } else {
        2
    }
}

/// Seasonal download priority of a month, in tenths: autumn highest, then
/// early spring after ice-out, winter lowest.
pub fn seasonal_score_tenths(month: u32) -> (r: u32)
    ensures
        r == seasonal_tenths_spec(month),
{
    if month == 9 || month == 10 {
        10
    } else if month == 11 {
        8
    } else if month == 4 || month == 5 {
        9
    } else if month == 6 {
        7
    } else if month == 7 || month == 8 {
        6
    } else {
        2
    }
}

} // verus!
