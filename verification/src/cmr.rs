//! NASA CMR granule search helpers: the collections searched per sensor, the
//! first data link of a granule, and the Earthdata token of an `.env` file.
use vstd::prelude::*;
use crate::stac::{GranuleLink, text_or_empty};
use crate::text::{
    chars_of, deep, eq_str, lines, lines_exec, lowercase_of, split, split_exec, starts_with, starts_with_str, string_of,
    to_lowercase, trim, trim_exec,
};
use crate::collate::{holds_text, insert_text_sorted, sorted_texts};
use crate::text::string_views;

verus! {

/// The CMR collection searched for each sensor key.
pub open spec fn concept_table() -> Seq<(Seq<char>, Seq<char>)> {
    seq![
        ("hls_l30"@, "C2021957657-LPCLOUD"@),
        ("hls_s30"@, "C2021957295-LPCLOUD"@),
        ("sar"@, "C1214354438-ASF"@),
        ("swot"@, "C2799438271-POCLOUD"@),
        ("atl13"@, "C2144800918-NSIDC_ECS"@),
        ("modis_lst"@, "C1621091311-LPDAAC_ECS"@),
    ]
}

/// The CMR collection searched for each sensor key.
pub fn concept_ids() -> (r: Vec<(&'static str, &'static str)>)
    ensures
        r@.map_values(|e: (&'static str, &'static str)| (e.0@, e.1@)) == concept_table(),
{
    let mut r: Vec<(&'static str, &'static str)> = Vec::new();
    r.push(("hls_l30", "C2021957657-LPCLOUD"));
    r.push(("hls_s30", "C2021957295-LPCLOUD"));
    r.push(("sar", "C1214354438-ASF"));
    r.push(("swot", "C2799438271-POCLOUD"));
    r.push(("atl13", "C2144800918-NSIDC_ECS"));
    r.push(("modis_lst", "C1621091311-LPDAAC_ECS"));
    assert(r@.map_values(|e: (&'static str, &'static str)| (e.0@, e.1@)) =~= concept_table());
    r
}

/// The relation CMR gives a granule's data links.
pub const DATA_REL: &'static str = "http://esipfed.org/ns/fedsearch/1.1/data#";

/// A link is a data link with an `http` address.
pub open spec fn is_data_link(l: GranuleLink) -> bool {
    text_or_empty(l.rel) == DATA_REL@ && starts_with(text_or_empty(l.href), "http"@)
}

/// The address of the first data link whose address starts with `http`; empty
/// where there is none.
pub fn first_download_url(links: &Vec<GranuleLink>) -> (r: String)
    ensures
        (exists|k: int| 0 <= k < links.len() && is_data_link(#[trigger] links@[k])) ==> exists|k: int|
            0 <= k < links.len() && is_data_link(#[trigger] links@[k]) && r@ == text_or_empty(links@[k].href)
                && forall|j: int| 0 <= j < k ==> !is_data_link(#[trigger] links@[j]),
        (forall|k: int| 0 <= k < links.len() ==> !is_data_link(#[trigger] links@[k])) ==> r@ == Seq::<char>::empty(),
{
    let mut k: usize = 0;
    while k < links.len()
        invariant
            k <= links.len(),
            forall|j: int| 0 <= j < k ==> !is_data_link(#[trigger] links@[j]),
        decreases links.len() - k,
    {
        let l = &links[k];
        let rel = match &l.rel {
            Some(s) => chars_of(s.as_str()),
            None => Vec::new(),
        };
        let href = match &l.href {
            Some(s) => chars_of(s.as_str()),
            None => Vec::new(),
        };
        proof {
            assert(rel@ == text_or_empty(l.rel));
            assert(href@ == text_or_empty(l.href));
        }
        if crate::text::eq_str(&rel, DATA_REL) && starts_with_str(&href, "http") {
            return string_of(&href);
        }
        k = k + 1;
    }
    String::new()
}

// ── Earthdata token in an `.env` file ───────────────────────────────────────

/// The position of the first `c` in `s`.
pub open spec fn first_index_of(s: Seq<char>, c: char) -> Option<int>
    decreases s.len(),
{
    if s.len() == 0 {
        None
    } else {
        match first_index_of(s.drop_last(), c) {
            Some(i) => Some(i),
            None => if s.last() == c {
                Some(s.len() - 1)
            } else {
                None
            },
        }
    }
}

/// The token an `.env` line sets: a trimmed line, not a comment, of the form
/// `key=value` (split at the first `=`) whose trimmed key is
/// `EARTHDATA_TOKEN` and whose trimmed value is not empty.
pub open spec fn line_token(line: Seq<char>) -> Option<Seq<char>> {
    let s = trim(line);
    if s.len() == 0 || starts_with(s, "#"@) {
        None
    } else {
        match first_index_of(s, '=') {
            Some(i) => if trim(s.take(i)) == "EARTHDATA_TOKEN"@ && trim(s.skip(i + 1)).len() > 0 {
                Some(trim(s.skip(i + 1)))
            } else {
                None
            },
            None => None,
        }
    }
}

/// The token set by the first line of `ls` that sets one.
pub open spec fn first_line_token(ls: Seq<Seq<char>>) -> Option<Seq<char>>
    decreases ls.len(),
{
    if ls.len() == 0 {
        None
    } else {
        match first_line_token(ls.drop_last()) {
            Some(t) => Some(t),
            None => line_token(ls.last()),
        }
    }
}

/// The position of the first `c` in `s` (see `first_index_of`).
pub(crate) fn find_char(s: &Vec<char>, c: char) -> (r: Option<usize>)
    ensures
        match r {
            Some(i) => i < s.len() && first_index_of(s@, c) == Some(i as int),
            None => first_index_of(s@, c) is None,
        },
{
    let mut i: usize = 0;
    while i < s.len()
        invariant
            i <= s.len(),
            first_index_of(s@.take(i as int), c) is None,
        decreases s.len() - i,
    {
        assert(s@.take(i + 1).drop_last() =~= s@.take(i as int));
        if s[i] == c {
            proof {
                lemma_first_index_prefix(s@, c, i as int);
            }
            return Some(i);
        }
        i = i + 1;
    }
    assert(s@.take(s.len() as int) =~= s@);
    None
}

/// A first occurrence found in a prefix is the first occurrence in the whole.
proof fn lemma_first_index_prefix(s: Seq<char>, c: char, i: int)
    requires
        0 <= i < s.len(),
        s[i] == c,
        first_index_of(s.take(i), c) is None,
    ensures
        first_index_of(s, c) == Some(i),
    decreases s.len(),
{
    if s.len() - 1 > i {
        assert(s.drop_last().take(i) =~= s.take(i));
        lemma_first_index_prefix(s.drop_last(), c, i);
    } else {
        assert(s.drop_last() =~= s.take(i));
    }
}

/// `s[lo..hi]`.
pub(crate) fn slice_chars(s: &Vec<char>, lo: usize, hi: usize) -> (r: Vec<char>)
    requires
        lo <= hi <= s.len(),
    ensures
        r@ == s@.subrange(lo as int, hi as int),
{
    let mut r: Vec<char> = Vec::new();
    let mut k: usize = lo;
    while k < hi
        invariant
            lo <= k <= hi <= s.len(),
            r@ == s@.subrange(lo as int, k as int),
        decreases hi - k,
    {
        r.push(s[k]);
        k = k + 1;
        assert(r@ =~= s@.subrange(lo as int, k as int));
    }
    r
}

/// The token one `.env` line sets (see `line_token`).
fn line_token_exec(line: &Vec<char>) -> (r: Option<Vec<char>>)
    ensures
        match r {
            Some(t) => line_token(line@) == Some(t@),
            None => line_token(line@) is None,
        },
{
    let s = trim_exec(line);
    if s.len() == 0 || starts_with_str(&s, "#") {
        return None;
    }
    match find_char(&s, '=') {
        None => None,
        Some(i) => {
            let key = trim_exec(&slice_chars(&s, 0, i));
            let value = trim_exec(&slice_chars(&s, i + 1, s.len()));
            proof {
                assert(s@.subrange(0, i as int) =~= s@.take(i as int));
                assert(s@.subrange(i + 1, s.len() as int) =~= s@.skip(i + 1));
            }
            if crate::text::eq_str(&key, "EARTHDATA_TOKEN") && value.len() > 0 {
                Some(value)
            } else {
                None
            }
        },
    }
}

/// The Earthdata token an `.env` file's text sets: that of the first line
/// `EARTHDATA_TOKEN = <value>` with a non-empty value, skipping blank lines
/// and comments.
pub fn token_from_env_text(raw: &str) -> (r: Option<String>)
    ensures
        match r {
            Some(t) => first_line_token(lines(raw@)) == Some(t@),
            None => first_line_token(lines(raw@)) is None,
        },
{
    let text = chars_of(raw);
    let ls = lines_exec(&text);
    let ghost lv = lines(raw@);
    let mut i: usize = 0;
    while i < ls.len()
        invariant
            i <= ls.len(),
            deep(ls@) == lv,
            lv == lines(raw@),
            first_line_token(lv.take(i as int)) is None,
        decreases ls.len() - i,
    {
        assert(lv.take(i + 1).drop_last() =~= lv.take(i as int));
        assert(ls@[i as int]@ == lv[i as int]);
        match line_token_exec(&ls[i]) {
            Some(t) => {
                proof {
                    lemma_first_token_prefix(lv, i as int);
                    assert(first_line_token(lv) == Some(t@));
                }
                let out = string_of(&t);
                assert(out@ == t@);
                return Some(out);
            },
            None => {},
        }
        i = i + 1;
    }
    assert(lv.take(ls.len() as int) =~= lv);
    None
}

/// A token on line `i`, with none before, is the first token of all lines.
proof fn lemma_first_token_prefix(ls: Seq<Seq<char>>, i: int)
    requires
        0 <= i < ls.len(),
        first_line_token(ls.take(i)) is None,
        line_token(ls[i]) is Some,
    ensures
        first_line_token(ls) == line_token(ls[i]),
    decreases ls.len(),
{
    if ls.len() - 1 > i {
        assert(ls.drop_last().take(i) =~= ls.take(i));
        assert(ls.drop_last()[i] == ls[i]);
        lemma_first_token_prefix(ls.drop_last(), i);
    } else {
        assert(ls.drop_last() =~= ls.take(i));
    }
}

// ── The search plan ─────────────────────────────────────────────────────────

/// A sensor key the search understands.
#[derive(Debug, Clone, Copy, PartialEq, Eq, Structural)]
pub enum CmrSensor {
    /// Harmonized Landsat-Sentinel: both of its collections.
    Hls,
    Sar,
    Swot,
    Atl13,
    Modis,
}

/// The sensor a lower-cased key names.
pub open spec fn cmr_sensor_named(k: Seq<char>) -> Option<CmrSensor> {
    if k == "hls"@ || k == "hls_l30"@ || k == "hls_s30"@ {
        Some(CmrSensor::Hls)
    } else if k == "sar"@ {
        Some(CmrSensor::Sar)
    } else if k == "swot"@ {
        Some(CmrSensor::Swot)
    } else if k == "atl13"@ {
        Some(CmrSensor::Atl13)
    } else if k == "modis"@ {
        Some(CmrSensor::Modis)
    } else {
        None
    }
}

pub fn cmr_sensor(k: &Vec<char>) -> (r: Option<CmrSensor>)
    ensures
        r == cmr_sensor_named(k@),
{
    if eq_str(k, "hls") || eq_str(k, "hls_l30") || eq_str(k, "hls_s30") {
        Some(CmrSensor::Hls)
    } else if eq_str(k, "sar") {
        Some(CmrSensor::Sar)
    } else if eq_str(k, "swot") {
        Some(CmrSensor::Swot)
    } else if eq_str(k, "atl13") {
        Some(CmrSensor::Atl13)
    } else if eq_str(k, "modis") {
        Some(CmrSensor::Modis)
    } else {
        None
    }
}

/// The collections a sensor queries: the key of its collection in
/// `concept_table`, the label its granules carry, and their polarization.
pub open spec fn sensor_collections_spec(s: CmrSensor) -> Seq<(Seq<char>, Seq<char>, Option<Seq<char>>)> {
    match s {
        CmrSensor::Hls => seq![("hls_l30"@, "HLS-Landsat"@, None), ("hls_s30"@, "HLS-Sentinel"@, None)],
        CmrSensor::Sar => seq![("sar"@, "SAR-Sentinel1"@, Some("VV+VH"@))],
        CmrSensor::Swot => seq![("swot"@, "SWOT"@, None)],
        CmrSensor::Atl13 => seq![("atl13"@, "ICESat2"@, None)],
        CmrSensor::Modis => seq![("modis_lst"@, "MODIS-LST"@, None)],
    }
}

/// A collection key belongs to a sensor key: it is the key itself, or the key
/// followed by an underscore and a product suffix (`hls_l30` for `hls`,
/// `modis_lst` for `modis`).
pub open spec fn key_names_collection(key: Seq<char>, collection_key: Seq<char>) -> bool {
    collection_key == key || (key + "_"@).is_prefix_of(collection_key)
}

/// A key that names a sensor queries that sensor's own collections: among the
/// collections of the sensor it selects is one whose key is that key or
/// extends it, and each of those collections has an entry in `concept_table`.
pub proof fn lemma_sensor_key_queries_its_collections(k: Seq<char>)
    ensures
        cmr_sensor_named(k) matches Some(s) ==> exists|i: int|
            0 <= i < sensor_collections_spec(s).len() && key_names_collection(k, #[trigger] sensor_collections_spec(s)[i].0),
        cmr_sensor_named(k) matches Some(s) ==> forall|i: int|
            0 <= i < sensor_collections_spec(s).len() ==> exists|j: int|
                0 <= j < concept_table().len() && #[trigger] concept_table()[j].0 == #[trigger] sensor_collections_spec(s)[i].0,
{
    reveal_strlit("hls");
    reveal_strlit("hls_l30");
    reveal_strlit("hls_s30");
    reveal_strlit("modis");
    reveal_strlit("modis_lst");
    reveal_strlit("_");
    let hls = sensor_collections_spec(CmrSensor::Hls);
    let t = concept_table();
    assert(("hls"@ + "_"@) =~= "hls_l30"@.subrange(0, 4));
    assert(("hls"@ + "_"@) =~= "hls_s30"@.subrange(0, 4));
    assert(("modis"@ + "_"@) =~= "modis_lst"@.subrange(0, 6));
    if k == "hls"@ {
        assert(key_names_collection(k, hls[0].0));
    } else if k == "hls_l30"@ {
        assert(key_names_collection(k, hls[0].0));
    } else if k == "hls_s30"@ {
        assert(key_names_collection(k, hls[1].0));
    } else if k == "sar"@ {
        assert(key_names_collection(k, sensor_collections_spec(CmrSensor::Sar)[0].0));
    } else if k == "swot"@ {
        assert(key_names_collection(k, sensor_collections_spec(CmrSensor::Swot)[0].0));
    } else if k == "atl13"@ {
        assert(key_names_collection(k, sensor_collections_spec(CmrSensor::Atl13)[0].0));
    } else if k == "modis"@ {
        assert(key_names_collection(k, sensor_collections_spec(CmrSensor::Modis)[0].0));
    }
    assert(t[0].0 == hls[0].0);
    assert(t[1].0 == hls[1].0);
    assert(t[2].0 == sensor_collections_spec(CmrSensor::Sar)[0].0);
    assert(t[3].0 == sensor_collections_spec(CmrSensor::Swot)[0].0);
    assert(t[4].0 == sensor_collections_spec(CmrSensor::Atl13)[0].0);
    assert(t[5].0 == sensor_collections_spec(CmrSensor::Modis)[0].0);
}

pub open spec fn collection_view(c: (&'static str, &'static str, Option<&'static str>)) -> (Seq<char>, Seq<char>, Option<Seq<char>>) {
    (c.0@, c.1@, match c.2 {
        Some(p) => Some(p@),
        None => None,
    })
}

/// The collections a sensor queries (see `sensor_collections_spec`).
pub fn sensor_collections(s: CmrSensor) -> (r: Vec<(&'static str, &'static str, Option<&'static str>)>)
    ensures
        r@.map_values(|c: (&'static str, &'static str, Option<&'static str>)| collection_view(c)) == sensor_collections_spec(s),
{
    let mut r: Vec<(&'static str, &'static str, Option<&'static str>)> = Vec::new();
    match s {
        CmrSensor::Hls => {
            r.push(("hls_l30", "HLS-Landsat", None));
            r.push(("hls_s30", "HLS-Sentinel", None));
        },
        CmrSensor::Sar => r.push(("sar", "SAR-Sentinel1", Some("VV+VH"))),
        CmrSensor::Swot => r.push(("swot", "SWOT", None)),
        CmrSensor::Atl13 => r.push(("atl13", "ICESat2", None)),
        CmrSensor::Modis => r.push(("modis_lst", "MODIS-LST", None)),
    }
    assert(r@.map_values(|c: (&'static str, &'static str, Option<&'static str>)| collection_view(c)) =~= sensor_collections_spec(s));
    r
}

/// The sensor keys of a `--sensor` argument: its comma-separated pieces,
/// trimmed and lower-cased.
pub open spec fn sensor_keys(raw: Seq<char>) -> Seq<Seq<char>> {
    split(raw, ',').map_values(|p: Seq<char>| lowercase_of(trim(p)))
}

/// The steps of a search over `keys`, and the set of sensors queried: an
/// empty key, or one already queried, is skipped; a known key is queried and
/// joins the set; an unknown key is reported (every time it comes).
pub open spec fn plan_state(keys: Seq<Seq<char>>) -> (Seq<(Seq<char>, Option<CmrSensor>)>, Set<Seq<char>>)
    decreases keys.len(),
{
    if keys.len() == 0 {
        (Seq::empty(), Set::empty())
    } else {
        let prev = plan_state(keys.drop_last());
        let k = keys.last();
        if k.len() == 0 || prev.1.contains(k) {
            prev
        } else {
            match cmr_sensor_named(k) {
                Some(s) => (prev.0.push((k, Some(s))), prev.1.insert(k)),
                None => (prev.0.push((k, None)), prev.1),
            }
        }
    }
}

/// One step of a search: a key, and the sensor it queries (none for a key
/// that is reported as unknown).
#[derive(Debug, Clone)]
pub struct PlanStep {
    pub key: String,
    pub sensor: Option<CmrSensor>,
}

/// A search: its steps in order, and the sensors queried, sorted.
#[derive(Debug, Clone)]
pub struct CmrPlan {
    pub steps: Vec<PlanStep>,
    pub sensors_queried: Vec<String>,
}

pub open spec fn step_views(v: Seq<PlanStep>) -> Seq<(Seq<char>, Option<CmrSensor>)> {
    v.map_values(|st: PlanStep| (st.key@, st.sensor))
}

/// The search a `--sensor` argument asks for (see `plan_state`); the sensors
/// queried are listed sorted.
pub fn cmr_plan(sensor_arg: &str) -> (r: CmrPlan)
    ensures
        step_views(r.steps@) == plan_state(sensor_keys(sensor_arg@)).0,
        sorted_texts(string_views(r.sensors_queried@)),
        forall|x: Seq<char>| string_views(r.sensors_queried@).contains(x) <==> plan_state(sensor_keys(sensor_arg@)).1.contains(x),
{
    let pieces = split_exec(&chars_of(sensor_arg), ',');
    let ghost keys = sensor_keys(sensor_arg@);
    let ghost pv = deep(pieces@);
    let mut steps: Vec<PlanStep> = Vec::new();
    let mut seen: Vec<String> = Vec::new();
    let mut i: usize = 0;
    while i < pieces.len()
        invariant
            i <= pieces.len(),
            pv == deep(pieces@),
            pv == split(sensor_arg@, ','),
            keys == sensor_keys(sensor_arg@),
            keys.len() == pieces.len(),
            step_views(steps@) == plan_state(keys.take(i as int)).0,
            sorted_texts(string_views(seen@)),
            forall|x: Seq<char>| string_views(seen@).contains(x) <==> plan_state(keys.take(i as int)).1.contains(x),
        decreases pieces.len() - i,
    {
        let trimmed = string_of(&trim_exec(&pieces[i]));
        let lower = to_lowercase(trimmed.as_str());
        let key = string_of(&lower);
        assert(key@ == keys[i as int]);
        assert(keys.take(i + 1).drop_last() =~= keys.take(i as int));
        let ghost prev_steps = steps@;
        if lower.len() > 0 && !holds_text(&seen, key.as_str()) {
            let sensor = cmr_sensor(&lower);
            match sensor {
                Some(_) => {
                    let k2 = string_of(&lower);
                    insert_text_sorted(&mut seen, k2);
                },
                None => {},
            }
            steps.push(PlanStep { key, sensor });
            assert(step_views(steps@) =~= step_views(prev_steps).push((lower@, sensor)));
        } else {
            proof {
                if lower.len() > 0 {
                    assert(string_views(seen@).contains(key@));
                }
            }
        }
        i = i + 1;
    }
    assert(keys.take(pieces.len() as int) =~= keys);
    CmrPlan { steps, sensors_queried: seen }
}

/// The CMR `temporal` parameter for a day range.
pub open spec fn temporal_text(start: Seq<char>, end: Seq<char>) -> Seq<char> {
    start + "T00:00:00Z,"@ + end + "T23:59:59Z"@
}

pub fn cmr_temporal(start: &str, end: &str) -> (r: String)
    ensures
        r@ == temporal_text(start@, end@),
{
    let mut out = chars_of(start);
    crate::text::append_chars(&mut out, &chars_of("T00:00:00Z,"));
    crate::text::append_chars(&mut out, &chars_of(end));
    crate::text::append_chars(&mut out, &chars_of("T23:59:59Z"));
    string_of(&out)
}

/// The page size asked of CMR: the results wanted, at most 200.
pub fn cmr_page_size(max_results: usize) -> (r: usize)
    ensures
        r == (if max_results < 200 { max_results } else { 200 }),
{
    if max_results < 200 {
        max_results
    } else {
        200
    }
}

} // verus!
