//! What the worker's external tools are started with: the sensor list a
//! download provider stands for, the satellite credentials an `.env` file
//! passes on, the mission runner's arguments, the reports a reader returns,
//! and the shape of a bounding-box argument.
use vstd::prelude::*;
use crate::text::string_views;
use crate::cmr::{first_index_of, find_char, slice_chars};
use crate::text::{
    chars_of, deep, eq_str, lines, lines_exec, split, split_exec, starts_with, starts_with_str, string_of, trim,
    trim_exec,
};

verus! {

// ── Download providers ──────────────────────────────────────────────────────

/// The downloader's sensor list for a provider name; an unknown name is
/// passed through as a sensor list of its own.
pub open spec fn provider_sensors_text(p: Seq<char>) -> Seq<char> {
    if p == "auto"@ || p == "all"@ {
        "all"@
    } else if p == "aws"@ || p == "optical_aws"@ || p == "stac"@ || p == "free_aws"@ {
        "aws"@
    } else if p == "sentinel"@ {
        "sentinel2_aws,sar"@
    } else if p == "sentinel2"@ {
        "sentinel2_aws"@
    } else if p == "landsat"@ {
        "landsat_aws"@
    } else if p == "ecostress"@ {
        "ecostress"@
    } else if p == "swot"@ {
        "swot"@
    } else if p == "optical"@ {
        "optical_aws"@
    } else {
        p
    }
}

/// The downloader's sensor list for a provider name (see `provider_sensors_text`).
pub fn provider_sensors(provider: &str) -> (r: String)
    ensures
        r@ == provider_sensors_text(provider@),
{
    let p = chars_of(provider);
    let out: &str = if eq_str(&p, "auto") || eq_str(&p, "all") {
        "all"
    } else if eq_str(&p, "aws") || eq_str(&p, "optical_aws") || eq_str(&p, "stac") || eq_str(&p, "free_aws") {
        "aws"
    } else if eq_str(&p, "sentinel") {
        "sentinel2_aws,sar"
    } else if eq_str(&p, "sentinel2") {
        "sentinel2_aws"
    } else if eq_str(&p, "landsat") {
        "landsat_aws"
    } else if eq_str(&p, "ecostress") {
        "ecostress"
    } else if eq_str(&p, "swot") {
        "swot"
    } else if eq_str(&p, "optical") {
        "optical_aws"
    } else {
        return string_of(&p);
    };
    string_of(&chars_of(out))
}

// ── Satellite credentials of an `.env` file ─────────────────────────────────

/// `s` without leading and trailing copies of `c`.
pub open spec fn strip_char(s: Seq<char>, c: char) -> Seq<char>
    decreases s.len(),
{
    if s.len() > 0 && s[0] == c {
        strip_char(s.drop_first(), c)
    } else if s.len() > 0 && s.last() == c {
        strip_char(s.drop_last(), c)
    } else {
        s
    }
}

/// The keys passed on to the satellite tools: Earthdata, Copernicus, USGS and
/// ASF credentials, and the data directory.
pub open spec fn satellite_key(k: Seq<char>) -> bool {
    ||| starts_with(k, "EARTHDATA"@)
    ||| starts_with(k, "NASA_EARTHDATA"@)
    ||| starts_with(k, "COPERNICUS"@)
    ||| starts_with(k, "USGS"@)
    ||| starts_with(k, "ASF"@)
    ||| k == "CESAROPS_DATA_DIR"@
}

/// The setting an `.env` line makes: a trimmed, non-comment line split at
/// its first `=`, the key trimmed, the value trimmed and unquoted.
pub open spec fn env_setting(line: Seq<char>) -> Option<(Seq<char>, Seq<char>)> {
    let s = trim(line);
    if s.len() == 0 || starts_with(s, "#"@) {
        None
    } else {
        match first_index_of(s, '=') {
            Some(i) => Some((trim(s.take(i)), strip_char(strip_char(trim(s.skip(i + 1)), '"'), '\''))),
            None => None,
        }
    }
}

/// The satellite settings of the lines `ls`, in order.
pub open spec fn satellite_settings(ls: Seq<Seq<char>>) -> Seq<(Seq<char>, Seq<char>)>
    decreases ls.len(),
{
    if ls.len() == 0 {
        Seq::empty()
    } else {
        let rest = satellite_settings(ls.drop_last());
        match env_setting(ls.last()) {
            Some(kv) => if satellite_key(kv.0) {
                rest.push(kv)
            } else {
                rest
            },
            None => rest,
        }
    }
}

fn strip_char_exec(s: &Vec<char>, c: char) -> (r: Vec<char>)
    ensures
        r@ == strip_char(s@, c),
{
    let mut lo: usize = 0;
    let mut hi: usize = s.len();
    assert(s@.subrange(0, s.len() as int) =~= s@);
    while lo < hi && s[lo] == c
        invariant
            lo <= hi <= s.len(),
            hi == s.len(),
            strip_char(s@.subrange(lo as int, hi as int), c) == strip_char(s@, c),
        decreases hi - lo,
    {
        assert(s@.subrange(lo as int, hi as int).drop_first() =~= s@.subrange(lo + 1, hi as int));
        lo = lo + 1;
    }
    while lo < hi && s[hi - 1] == c
        invariant
            lo <= hi <= s.len(),
            lo < hi ==> s@[lo as int] != c,
            strip_char(s@.subrange(lo as int, hi as int), c) == strip_char(s@, c),
        decreases hi - lo,
    {
        assert(s@.subrange(lo as int, hi as int).drop_last() =~= s@.subrange(lo as int, hi - 1));
        hi = hi - 1;
    }
    slice_chars(s, lo, hi)
}

fn env_setting_exec(line: &Vec<char>) -> (r: Option<(Vec<char>, Vec<char>)>)
    ensures
        match r {
            Some(kv) => env_setting(line@) == Some((kv.0@, kv.1@)),
            None => env_setting(line@) is None,
        },
{
    let s = trim_exec(line);
    if s.len() == 0 || starts_with_str(&s, "#") {
        return None;
    }
    match find_char(&s, '=') {
        None => None,
        Some(i) => {
            let key = trim_exec(&slice_chars(&s, 0, i));
            let raw = trim_exec(&slice_chars(&s, i + 1, s.len()));
            let value = strip_char_exec(&strip_char_exec(&raw, '"'), '\'');
            proof {
                assert(s@.subrange(0, i as int) =~= s@.take(i as int));
                assert(s@.subrange(i + 1, s.len() as int) =~= s@.skip(i + 1));
            }
            Some((key, value))
        },
    }
}

fn satellite_key_exec(k: &Vec<char>) -> (r: bool)
    ensures
        r == satellite_key(k@),
{
    starts_with_str(k, "EARTHDATA") || starts_with_str(k, "NASA_EARTHDATA") || starts_with_str(k, "COPERNICUS")
        || starts_with_str(k, "USGS") || starts_with_str(k, "ASF") || eq_str(k, "CESAROPS_DATA_DIR")
}

/// The satellite credentials an `.env` file's text sets, in file order (see
/// `satellite_settings`).
pub fn satellite_env_vars(content: &str) -> (r: Vec<(String, String)>)
    ensures
        r@.map_values(|kv: (String, String)| (kv.0@, kv.1@)) == satellite_settings(lines(content@)),
{
    let text = chars_of(content);
    let ls = lines_exec(&text);
    let ghost lv = lines(content@);
    let mut out: Vec<(String, String)> = Vec::new();
    let mut i: usize = 0;
    while i < ls.len()
        invariant
            i <= ls.len(),
            deep(ls@) == lv,
            lv == lines(content@),
            out@.map_values(|kv: (String, String)| (kv.0@, kv.1@)) == satellite_settings(lv.take(i as int)),
        decreases ls.len() - i,
    {
        assert(lv.take(i + 1).drop_last() =~= lv.take(i as int));
        assert(ls@[i as int]@ == lv[i as int]);
        let ghost prev = out@;
        match env_setting_exec(&ls[i]) {
            Some(kv) => {
                if satellite_key_exec(&kv.0) {
                    let k = string_of(&kv.0);
                    let v = string_of(&kv.1);
                    out.push((k, v));
                    assert(out@.map_values(|kv: (String, String)| (kv.0@, kv.1@)) =~= prev.map_values(
                        |kv: (String, String)| (kv.0@, kv.1@),
                    ).push((kv.0@, kv.1@)));
                }
            },
            None => {},
        }
        i = i + 1;
    }
    assert(lv.take(ls.len() as int) =~= lv);
    out
}

// ── The mission runner ──────────────────────────────────────────────────────

/// The mission runner's arguments after its script: the spec file, then
/// `--dry-run` for a dry run, `--knobs` and the knob text when given, and
/// `--stages` with the stage names when there are any.
pub open spec fn mission_args_spec(
    spec_path: Seq<char>,
    dry_run: bool,
    knobs: Option<Seq<char>>,
    stages: Seq<Seq<char>>,
) -> Seq<Seq<char>> {
    seq!["--spec"@, spec_path] + (if dry_run { seq!["--dry-run"@] } else { Seq::empty() }) + (match knobs {
        Some(k) => seq!["--knobs"@, k],
        None => Seq::empty(),
    }) + (if stages.len() > 0 { seq!["--stages"@] + stages } else { Seq::empty() })
}

pub open spec fn opt_text(o: Option<String>) -> Option<Seq<char>> {
    match o {
        Some(k) => Some(k@),
        None => None,
    }
}

/// The mission runner's arguments (see `mission_args_spec`).
pub fn mission_args(spec_path: &str, dry_run: bool, knobs: Option<String>, stages: &Vec<String>) -> (r: Vec<String>)
    ensures
        string_views(r@) == mission_args_spec(spec_path@, dry_run, opt_text(knobs), string_views(stages@)),
{
    let ghost kv = opt_text(knobs);
    let mut r: Vec<String> = Vec::new();
    r.push(string_of(&chars_of("--spec")));
    r.push(string_of(&chars_of(spec_path)));
    if dry_run {
        r.push(string_of(&chars_of("--dry-run")));
    }
    match knobs {
        Some(k) => {
            r.push(string_of(&chars_of("--knobs")));
            r.push(k);
        },
        None => {},
    }
    let ghost head = string_views(r@);
    assert(head =~= seq!["--spec"@, spec_path@] + (if dry_run { seq!["--dry-run"@] } else { Seq::empty() }) + (
    match kv {
        Some(k) => seq!["--knobs"@, k],
        None => Seq::empty(),
    }));
    if stages.len() > 0 {
        r.push(string_of(&chars_of("--stages")));
        let mut t: usize = 0;
        while t < stages.len()
            invariant
                t <= stages.len(),
                string_views(r@) == head + seq!["--stages"@] + string_views(stages@).take(t as int),
            decreases stages.len() - t,
        {
            let ghost prev = r@;
            r.push(string_of(&chars_of(stages[t].as_str())));
            assert(string_views(stages@).take(t + 1) =~= string_views(stages@).take(t as int).push(stages@[t as int]@));
            assert(string_views(r@) =~= string_views(prev).push(stages@[t as int]@));
            t = t + 1;
        }
        assert(string_views(stages@).take(stages.len() as int) =~= string_views(stages@));
    }
    assert(string_views(r@) =~= mission_args_spec(spec_path@, dry_run, kv, string_views(stages@)));
    r
}

// ── Reading a mission's reports ─────────────────────────────────────────────

/// The report files a reader returns, with the key each is returned under:
/// the mission report, the validation report, or (for anything else) both.
pub open spec fn report_files_spec(which: Seq<char>) -> Seq<(Seq<char>, Seq<char>)> {
    if which == "mission"@ {
        seq![("mission_report.json"@, "mission_report"@)]
    } else if which == "validation"@ {
        seq![("validation_report.json"@, "validation_report"@)]
    } else {
        seq![("mission_report.json"@, "mission_report"@), ("validation_report.json"@, "validation_report"@)]
    }
}

/// The report files to read for `which` (see `report_files_spec`).
pub fn report_files(which: &str) -> (r: Vec<(&'static str, &'static str)>)
    ensures
        r@.map_values(|e: (&'static str, &'static str)| (e.0@, e.1@)) == report_files_spec(which@),
{
    let w = chars_of(which);
    let mut r: Vec<(&'static str, &'static str)> = Vec::new();
    if eq_str(&w, "mission") {
        r.push(("mission_report.json", "mission_report"));
    } else if eq_str(&w, "validation") {
        r.push(("validation_report.json", "validation_report"));
    } else {
        r.push(("mission_report.json", "mission_report"));
        r.push(("validation_report.json", "validation_report"));
    }
    assert(r@.map_values(|e: (&'static str, &'static str)| (e.0@, e.1@)) =~= report_files_spec(which@));
    r
}

// ── Bounding-box arguments ──────────────────────────────────────────────────

/// The trimmed comma-separated fields of a bounding-box argument, when there
/// are exactly four.
pub open spec fn bbox_fields_spec(bbox: Seq<char>) -> Option<Seq<Seq<char>>> {
    let parts = split(bbox, ',');
    if parts.len() == 4 {
        Some(parts.map_values(|p: Seq<char>| trim(p)))
    } else {
        None
    }
}

/// The four fields of a bounding-box argument (see `bbox_fields_spec`).
pub fn bbox_fields(bbox: &str) -> (r: Option<Vec<String>>)
    ensures
        match r {
            Some(v) => bbox_fields_spec(bbox@) == Some(string_views(v@)),
            None => bbox_fields_spec(bbox@) is None,
        },
{
    let parts = split_exec(&chars_of(bbox), ',');
    if parts.len() != 4 {
        return None;
    }
    let ghost pv = deep(parts@);
    let mut out: Vec<String> = Vec::new();
    let mut k: usize = 0;
    while k < 4
        invariant
            k <= 4,
            parts.len() == 4,
            pv == deep(parts@),
            pv == split(bbox@, ','),
            string_views(out@) == pv.map_values(|p: Seq<char>| trim(p)).take(k as int),
        decreases 4 - k,
    {
        let ghost prev = out@;
        out.push(string_of(&trim_exec(&parts[k])));
        assert(string_views(out@) =~= string_views(prev).push(trim(pv[k as int])));
        assert(pv.map_values(|p: Seq<char>| trim(p)).take(k + 1) =~= pv.map_values(|p: Seq<char>| trim(p)).take(
            k as int,
        ).push(trim(pv[k as int])));
        k = k + 1;
    }
    assert(pv.map_values(|p: Seq<char>| trim(p)).take(4) =~= pv.map_values(|p: Seq<char>| trim(p)));
    Some(out)
}

} // verus!
