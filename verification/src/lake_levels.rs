//! Intent-driven choice of the years whose scenes a Great Lakes search pulls.
//!
//! Low water is one strategy among several: a submerged wreck is nearer the
//! surface in low-water years, a recent sinking only shows in the latest years,
//! and mussel clarity is best in the years after the lows. Year ranking is
//! clamped to the sensor's archive.
use vstd::prelude::*;
use chrono::Datelike;
use crate::text::{lowercase_of, to_lowercase, contains, contains_str, eq_str};

verus! {

pub const SENTINEL2_ARCHIVE_START: i32 = 2017;
pub const LANDSAT_ARCHIVE_START: i32 = 1984;

/// Optical archive families with different reach into the past.
#[derive(Debug, Clone, Copy, PartialEq, Eq, Structural)]
pub enum SensorFamily {
    Sentinel2,
    Landsat,
}

pub open spec fn sensor_from_lowercase(lower: Seq<char>) -> SensorFamily {
    if contains(lower, "landsat"@) {
        SensorFamily::Landsat
    } else {
        SensorFamily::Sentinel2
    }
}

pub open spec fn archive_start_spec(s: SensorFamily) -> i32 {
    match s {
        SensorFamily::Sentinel2 => SENTINEL2_ARCHIVE_START,
        SensorFamily::Landsat => LANDSAT_ARCHIVE_START,
    }
}

impl SensorFamily {
    /// Landsat for any name that mentions it (in any case), Sentinel-2 otherwise.
    pub fn from_str(s: &str) -> (r: SensorFamily)
        ensures
            r == sensor_from_lowercase(lowercase_of(s@)),
    {
        let lower = to_lowercase(s);
        Self::from_lowercase(&lower)
    }

    /// The family named by an already lower-cased sensor name.
    pub fn from_lowercase(lower: &Vec<char>) -> (r: SensorFamily)
        ensures
            r == sensor_from_lowercase(lower@),
    {
        if contains_str(lower, "landsat") {
            SensorFamily::Landsat
        } else {
            SensorFamily::Sentinel2
        }
    }

    /// First year of the family's archive.
    pub fn archive_start(self) -> (r: i32)
        ensures
            r == archive_start_spec(self),
    {
        match self {
            SensorFamily::Sentinel2 => SENTINEL2_ARCHIVE_START,
            SensorFamily::Landsat => LANDSAT_ARCHIVE_START,
        }
    }
}

/// What the operator is hunting.
#[derive(Debug, Clone, Copy, PartialEq, Eq, Structural)]
pub enum ScanIntent {
    LowWaterWreck,
    RecentSinking,
    ZebraClarity,
    EventResponse,
    Generic,
}

/// Spaces and hyphens read as underscores.
pub open spec fn underscored(s: Seq<char>) -> Seq<char> {
    s.map_values(|c: char| if c == ' ' || c == '-' { '_' } else { c })
}

pub open spec fn is_one_of(s: Seq<char>, names: Seq<Seq<char>>) -> bool {
    exists|i: int| 0 <= i < names.len() && names[i] == s
}

pub open spec fn intent_from_normalized(n: Seq<char>) -> ScanIntent {
    if n == "low_water"@ || n == "low_water_wreck"@ || n == "wreck"@ || n == "cold_sink"@ {
        ScanIntent::LowWaterWreck
    } else if n == "recent"@ || n == "recent_sinking"@ || n == "new_wreck"@ {
        ScanIntent::RecentSinking
    } else if n == "zebra"@ || n == "zebra_clarity"@ || n == "clarity"@ || n == "mussel"@ {
        ScanIntent::ZebraClarity
    } else if n == "event"@ || n == "event_response"@ || n == "spill"@ || n == "hydrocarbon"@
        || n == "sar"@ {
        ScanIntent::EventResponse
    } else {
        ScanIntent::Generic
    }
}

/// The name a year-selection intent is written by: its variant name in snake case.
pub open spec fn intent_key(i: ScanIntent) -> Seq<char> {
    match i {
        ScanIntent::LowWaterWreck => "low_water_wreck"@,
        ScanIntent::RecentSinking => "recent_sinking"@,
        ScanIntent::ZebraClarity => "zebra_clarity"@,
        ScanIntent::EventResponse => "event_response"@,
        ScanIntent::Generic => "generic"@,
    }
}

/// Every year-selection intent reads back from its own name.
pub proof fn lemma_intent_key_reads_back(i: ScanIntent)
    ensures
        intent_from_normalized(intent_key(i)) == i,
{
    reveal_strlit("low_water_wreck");
    reveal_strlit("recent_sinking");
    reveal_strlit("zebra_clarity");
    reveal_strlit("event_response");
    reveal_strlit("generic");
    reveal_strlit("low_water");
    reveal_strlit("wreck");
    reveal_strlit("cold_sink");
    reveal_strlit("recent");
    reveal_strlit("new_wreck");
    reveal_strlit("zebra");
    reveal_strlit("clarity");
    reveal_strlit("mussel");
    reveal_strlit("event");
    reveal_strlit("spill");
    reveal_strlit("hydrocarbon");
    reveal_strlit("sar");
    assert("low_water_wreck"@.len() == 15);
    assert("recent_sinking"@.len() == 14);
    assert("zebra_clarity"@.len() == 13);
    assert("event_response"@.len() == 14);
    assert("generic"@.len() == 7);
    assert("low_water"@.len() == 9);
    assert("wreck"@.len() == 5);
    assert("cold_sink"@.len() == 9);
    assert("recent"@.len() == 6);
    assert("new_wreck"@.len() == 9);
    assert("zebra"@.len() == 5);
    assert("clarity"@.len() == 7);
    assert("mussel"@.len() == 6);
    assert("event"@.len() == 5);
    assert("spill"@.len() == 5);
    assert("hydrocarbon"@.len() == 11);
    assert("sar"@.len() == 3);
    assert("recent_sinking"@[0] != "event_response"@[0]);
    assert("generic"@[0] != "clarity"@[0]);
    assert("low_water"@[0] != "cold_sink"@[0]);
    assert("low_water"@[0] != "new_wreck"@[0]);
    assert("wreck"@[0] != "zebra"@[0]);
    assert("wreck"@[0] != "event"@[0]);
    assert("wreck"@[0] != "spill"@[0]);
    assert("cold_sink"@[0] != "new_wreck"@[0]);
    assert("recent"@[0] != "mussel"@[0]);
    assert("zebra"@[0] != "event"@[0]);
    assert("zebra"@[0] != "spill"@[0]);
    assert("event"@[0] != "spill"@[0]);
}

impl ScanIntent {
    /// Reads an intent name in any case, with spaces or hyphens for underscores;
    /// unknown names give `Generic`.
    pub fn from_str(s: &str) -> (r: ScanIntent)
        ensures
            r == intent_from_normalized(underscored(lowercase_of(s@))),
    {
        let lower = to_lowercase(s);
        let mut n: Vec<char> = Vec::new();
        let mut i: usize = 0;
        while i < lower.len()
            invariant
                i <= lower.len(),
                n@ == underscored(lower@.take(i as int)),
            decreases lower.len() - i,
        {
            let c = lower[i];
            if c == ' ' || c == '-' {
                n.push('_');
            } else {
                n.push(c);
            }
            i = i + 1;
            assert(n@ =~= underscored(lower@.take(i as int)));
        }
        assert(lower@.take(lower.len() as int) =~= lower@);
        Self::from_normalized(&n)
    }

    /// The intent named by a lower-cased, underscored name.
    pub fn from_normalized(n: &Vec<char>) -> (r: ScanIntent)
        ensures
            r == intent_from_normalized(n@),
    {
        if eq_str(n, "low_water") || eq_str(n, "low_water_wreck") || eq_str(n, "wreck") || eq_str(
            n,
            "cold_sink",
        ) {
            ScanIntent::LowWaterWreck
        } else if eq_str(n, "recent") || eq_str(n, "recent_sinking") || eq_str(n, "new_wreck") {
            ScanIntent::RecentSinking
        } else if eq_str(n, "zebra") || eq_str(n, "zebra_clarity") || eq_str(n, "clarity")
            || eq_str(n, "mussel") {
            ScanIntent::ZebraClarity
        } else if eq_str(n, "event") || eq_str(n, "event_response") || eq_str(n, "spill")
            || eq_str(n, "hydrocarbon") || eq_str(n, "sar") {
            ScanIntent::EventResponse
        } else {
            ScanIntent::Generic
        }
    }
}

/// Great Lakes basins sharing a water-level record.
#[derive(Debug, Clone, Copy, PartialEq, Eq, Structural)]
pub enum LakeBasin {
    MichiganHuron,
    Superior,
    Erie,
    Ontario,
    Unknown,
}

/// Historic low-water years of a basin, lowest first.
pub open spec fn low_years_spec(b: LakeBasin) -> Seq<i32> {
    match b {
        LakeBasin::MichiganHuron => seq![2013i32, 2012, 2007, 2003, 1964, 1965, 2001, 2000, 2014, 2010],
        LakeBasin::Superior => seq![2007i32, 2010, 2013, 2012, 1926, 2003, 2000, 2014],
        LakeBasin::Erie => seq![1934i32, 1936, 1964, 2012, 2001, 1965, 2007],
        LakeBasin::Ontario => seq![1934i32, 1935, 1965, 2007, 2012],
        LakeBasin::Unknown => Seq::empty(),
    }
}

/// Historic low-water years of a basin, lowest first.
pub fn ranked_low_years(basin: LakeBasin) -> (r: Vec<i32>)
    ensures
        r@ == low_years_spec(basin),
{
    let v: Vec<i32> = match basin {
        LakeBasin::MichiganHuron => vec![2013, 2012, 2007, 2003, 1964, 1965, 2001, 2000, 2014, 2010],
        LakeBasin::Superior => vec![2007, 2010, 2013, 2012, 1926, 2003, 2000, 2014],
        LakeBasin::Erie => vec![1934, 1936, 1964, 2012, 2001, 1965, 2007],
        LakeBasin::Ontario => vec![1934, 1935, 1965, 2007, 2012],
        LakeBasin::Unknown => Vec::new(),
    };
    assert(v@ =~= low_years_spec(basin));
    v
}

/// Up to `n` consecutive years counting down from `top` to no earlier than `start`.
pub open spec fn countdown(top: int, start: int, n: nat) -> Seq<i32> {
    let avail = if top >= start { top - start + 1 } else { 0 };
    let cnt = if (n as int) < avail { n as int } else { avail };
    Seq::new(cnt as nat, |k: int| (top - k) as i32)
}

/// The first `n` years of `s` inside `[start, this_year)`, in the order of `s`.
pub open spec fn first_in_window(s: Seq<i32>, start: i32, this_year: i32, n: nat) -> Seq<i32>
    decreases s.len(),
{
    if s.len() == 0 || n == 0 {
        Seq::empty()
    } else if start <= s[0] && s[0] < this_year {
        seq![s[0]] + first_in_window(s.drop_first(), start, this_year, (n - 1) as nat)
    } else {
        first_in_window(s.drop_first(), start, this_year, n)
    }
}

/// The years a search pulls for an intent in the year `this_year`.
pub open spec fn select_years_spec(
    basin: LakeBasin,
    sensor: SensorFamily,
    intent: ScanIntent,
    n: nat,
    this_year: i32,
) -> Seq<i32> {
    let start = archive_start_spec(sensor);
    match intent {
        ScanIntent::LowWaterWreck => first_in_window(low_years_spec(basin), start, this_year, n),
        ScanIntent::ZebraClarity => countdown(this_year - 1, start as int, n),
        _ => countdown(this_year as int, start as int, n),
    }
}

/// The most recent complete years the sensor can serve, newest first: the
/// high-clarity era after the lows.
pub fn clarity_years(this_year: i32, start: i32, n: usize) -> (r: Vec<i32>)
    requires
        this_year > i32::MIN,
        start > i32::MIN,
    ensures
        r@ == countdown(this_year - 1, start as int, n as nat),
{
    countdown_years(this_year - 1, start, n)
}

fn countdown_years(top: i32, start: i32, n: usize) -> (r: Vec<i32>)
    requires
        start > i32::MIN,
    ensures
        r@ == countdown(top as int, start as int, n as nat),
{
    let mut out: Vec<i32> = Vec::new();
    let mut y = top;
    while out.len() < n && y >= start
        invariant
            start > i32::MIN,
            y == top - out.len(),
            out.len() <= n,
            top >= start ==> out.len() <= top - start + 1,
            top < start ==> out.len() == 0,
            forall|k: int| 0 <= k < out.len() ==> out@[k] == top - k,
        decreases n - out.len(),
    {
        out.push(y);
        y = y - 1;
    }
    assert(out@ =~= countdown(top as int, start as int, n as nat));
    out
}

/// The years to pull, given the current year.
pub fn select_years_in(
    basin: LakeBasin,
    sensor: SensorFamily,
    intent: ScanIntent,
    n: usize,
    this_year: i32,
) -> (r: Vec<i32>)
    requires
        this_year > i32::MIN,
    ensures
        r@ == select_years_spec(basin, sensor, intent, n as nat, this_year),
        r.len() <= n,
        forall|k: int| 0 <= k < r.len() ==> r@[k] >= archive_start_spec(sensor),
        intent != ScanIntent::RecentSinking && intent != ScanIntent::EventResponse && intent
            != ScanIntent::Generic ==> forall|k: int| 0 <= k < r.len() ==> r@[k] < this_year,
{
    let start = sensor.archive_start();
    match intent {
        ScanIntent::LowWaterWreck => {
            let ranked = ranked_low_years(basin);
            let r = first_years_in_window(&ranked, start, this_year, n);
            proof {
                lemma_first_in_window_props(ranked@, start, this_year, n as nat);
            }
            r
        },
        ScanIntent::ZebraClarity => clarity_years(this_year, start, n),
        _ => countdown_years(this_year, start, n),
    }
}

proof fn lemma_first_in_window_props(s: Seq<i32>, start: i32, this_year: i32, n: nat)
    ensures
        first_in_window(s, start, this_year, n).len() <= n,
        forall|k: int|
            0 <= k < first_in_window(s, start, this_year, n).len() ==> start <= #[trigger] first_in_window(
                s,
                start,
                this_year,
                n,
            )[k] < this_year,
    decreases s.len(),
{
    if s.len() > 0 && n > 0 {
        if start <= s[0] && s[0] < this_year {
            lemma_first_in_window_props(s.drop_first(), start, this_year, (n - 1) as nat);
            let rest = first_in_window(s.drop_first(), start, this_year, (n - 1) as nat);
            assert forall|k: int|
                0 <= k < first_in_window(s, start, this_year, n).len() implies start
                <= #[trigger] first_in_window(s, start, this_year, n)[k] < this_year by {
                if k > 0 {
                    assert(first_in_window(s, start, this_year, n)[k] == rest[k - 1]);
                }
            }
        } else {
            lemma_first_in_window_props(s.drop_first(), start, this_year, n);
        }
    }
}

fn first_years_in_window(s: &Vec<i32>, start: i32, this_year: i32, n: usize) -> (r: Vec<i32>)
    ensures
        r@ == first_in_window(s@, start, this_year, n as nat),
{
    let mut out: Vec<i32> = Vec::new();
    let mut i: usize = 0;
    assert(s@.skip(0) =~= s@);
    assert(out@ + first_in_window(s@, start, this_year, n as nat) =~= first_in_window(s@, start, this_year, n as nat));
    while i < s.len() && out.len() < n
        invariant
            i <= s.len(),
            out.len() <= n,
            out@ + first_in_window(s@.skip(i as int), start, this_year, (n - out.len()) as nat)
                == first_in_window(s@, start, this_year, n as nat),
        decreases s.len() - i,
    {
        let y = s[i];
        assert(s@.skip(i as int).drop_first() =~= s@.skip(i + 1));
        let ghost rest = first_in_window(s@.skip(i + 1), start, this_year, (n - out.len() - 1) as nat);
        if start <= y && y < this_year {
            out.push(y);
            assert(out@ + first_in_window(s@.skip(i + 1), start, this_year, (n - out.len()) as nat)
                =~= out@.drop_last() + (seq![y] + rest));
        }
        i = i + 1;
    }
    proof {
        if i == s.len() {
            assert(first_in_window(s@.skip(i as int), start, this_year, (n - out.len()) as nat)
                =~= Seq::<i32>::empty());
        } else {
            assert(first_in_window(s@.skip(i as int), start, this_year, 0) =~= Seq::<i32>::empty());
        }
    }
    assert(out@ + Seq::<i32>::empty() =~= out@);
    out
}

/// This year on the local clock (`chrono::Local::now().year()`), within the
/// range chrono can represent. Nothing else is claimed of it: it is the time.
#[verifier::external_body]
pub(crate) fn current_year() -> (r: i32)
    ensures
        -262143 <= r <= 262142,
{
    chrono::Local::now().year()
}

/// The years to pull now: `select_years_in` at the current year on the local clock.
pub fn select_years(basin: LakeBasin, sensor: SensorFamily, intent: ScanIntent, n: usize) -> (r: Vec<
    i32,
>)
    ensures
        exists|y: i32| r@ == select_years_spec(basin, sensor, intent, n as nat, y),
        r.len() <= n,
        forall|k: int| 0 <= k < r.len() ==> r@[k] >= archive_start_spec(sensor),
{
    let y = current_year();
    select_years_in(basin, sensor, intent, n, y)
}

/// Whether the sensor's archive reaches the basin's record-low year.
pub open spec fn reaches_record_low_spec(basin: LakeBasin, sensor: SensorFamily) -> bool {
    low_years_spec(basin).len() > 0 && low_years_spec(basin)[0] >= archive_start_spec(sensor)
}

/// Whether the sensor's archive reaches the basin's record-low year; `false` for an unknown basin.
pub fn sensor_reaches_record_low(basin: LakeBasin, sensor: SensorFamily) -> (r: bool)
    ensures
        r == reaches_record_low_spec(basin, sensor),
{
    let ranked = ranked_low_years(basin);
    if ranked.len() == 0 {
        false
    } else {
        ranked[0] >= sensor.archive_start()
    }
}

} // verus!
