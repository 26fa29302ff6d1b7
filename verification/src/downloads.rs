//! Preflight checks of the download sources a mission would use.
//!
//! Which sources a sensor list selects, whether their credentials are present,
//! and how the probe results add up, are decided here; the network probes and
//! the reading of the environment are done by the caller.
use vstd::prelude::*;
use crate::text::string_views;
use crate::text::{
    chars_of, split, split_exec, trim, trim_exec, deep, lowercase_of, to_lowercase, string_of, eq_str,
    append_chars, chars_eq, decimal, decimal_exec, is_white,
};

verus! {

/// A download source and the sensor names that select it.
#[derive(Debug, Clone)]
pub struct SourceDefinition {
    pub id: &'static str,
    pub label: &'static str,
    pub url: &'static str,
    pub sensors: Vec<&'static str>,
    /// Environment variables of which any one carries the credentials.
    pub auth_env_any: Vec<&'static str>,
}

/// The result of probing one source.
#[derive(Debug, Clone)]
pub struct SourceProbe {
    pub id: String,
    pub label: String,
    pub url: String,
    pub selected: bool,
    pub auth_required: bool,
    pub auth_present: bool,
    pub reachable: bool,
    pub status_code: Option<u16>,
    pub elapsed_ms: u128,
    pub message: String,
}

/// The result of probing every source.
#[derive(Debug, Clone)]
pub struct DownloadPreflightReport {
    pub sensors: Vec<String>,
    pub strict_auth: bool,
    pub ok: bool,
    pub reachable_selected: usize,
    pub auth_missing_selected: usize,
    pub unreachable_selected: usize,
    pub probes: Vec<SourceProbe>,
}

pub type SourceView = (Seq<char>, Seq<char>, Seq<char>, Seq<Seq<char>>, Seq<Seq<char>>);

pub open spec fn strs(s: Seq<&'static str>) -> Seq<Seq<char>> {
    s.map_values(|x: &'static str| x@)
}

pub open spec fn source_view(s: SourceDefinition) -> SourceView {
    (s.id@, s.label@, s.url@, strs(s.sensors@), strs(s.auth_env_any@))
}

/// The known sources, in probing order.
pub open spec fn catalog_spec() -> Seq<SourceView> {
    seq![
        ("stac_e84"@, "Element84 STAC (Sentinel-2)"@, "https://earth-search.aws.element84.com/v1"@, seq!["all"@, "aws"@, "stac"@, "optical"@, "optical_aws"@, "sentinel2"@, "landsat"@, "landsat_aws"@, "sentinel2_aws"@], Seq::<Seq<char>>::empty()),
        ("copernicus_odata"@, "Copernicus Data Space OData"@, "https://catalogue.dataspace.copernicus.eu/odata/v1/Products"@, seq!["copernicus"@, "optical_cdse"@, "sar"@, "sentinel1"@], seq!["COPERNICUS_USER"@, "COPERNICUS_USERNAME"@]),
        ("asf_search"@, "ASF Search API"@, "https://api.daac.asf.alaska.edu/services/search/param"@, seq!["all"@, "sar"@, "sentinel1"@], Seq::<Seq<char>>::empty()),
        ("hyp3_api"@, "ASF HyP3 API"@, "https://hyp3-api.asf.alaska.edu/jobs"@, seq!["all"@, "sar"@, "sentinel1"@, "hyp3"@], seq!["EARTHDATA_TOKEN"@, "NASA_EARTHDATA_TOKEN"@]),
        ("cmr_granules"@, "NASA CMR Granules"@, "https://cmr.earthdata.nasa.gov/search/granules.json"@, seq!["all"@, "hls"@, "modis"@, "viirs"@, "icesat2"@, "swot"@, "thermal"@, "podaac"@], Seq::<Seq<char>>::empty()),
        ("usgs_m2m"@, "USGS EarthExplorer M2M"@, "https://m2m.cr.usgs.gov/api/api/json/stable/"@, seq!["all"@, "usgs"@, "thermal"@], seq!["USGS_API_KEY"@]),
        ("noaa_glsea"@, "NOAA CoastWatch GLSEA"@, "https://coastwatch.glerl.noaa.gov/erddap/griddap/GLSEA_GCS.nc"@, seq!["all"@, "sst"@, "thermal"@], Seq::<Seq<char>>::empty()),
        ("usgs_3dep"@, "USGS 3DEP TNM API"@, "https://tnmapi.cr.usgs.gov/api/products"@, seq!["all"@, "lidar"@, "dem"@, "bathymetry"@], Seq::<Seq<char>>::empty())
    ]
}

/// The known download sources, in probing order.
pub fn source_catalog() -> (r: Vec<SourceDefinition>)
    ensures
        r@.map_values(|s: SourceDefinition| source_view(s)) == catalog_spec(),
{
    let mut v: Vec<SourceDefinition> = Vec::new();
    v.push(SourceDefinition {
        id: "stac_e84",
        label: "Element84 STAC (Sentinel-2)",
        url: "https://earth-search.aws.element84.com/v1",
        sensors: vec!["all", "aws", "stac", "optical", "optical_aws", "sentinel2", "landsat", "landsat_aws", "sentinel2_aws"],
        auth_env_any: Vec::new(),
    });
    v.push(SourceDefinition {
        id: "copernicus_odata",
        label: "Copernicus Data Space OData",
        url: "https://catalogue.dataspace.copernicus.eu/odata/v1/Products",
        sensors: vec!["copernicus", "optical_cdse", "sar", "sentinel1"],
        auth_env_any: vec!["COPERNICUS_USER", "COPERNICUS_USERNAME"],
    });
    v.push(SourceDefinition {
        id: "asf_search",
        label: "ASF Search API",
        url: "https://api.daac.asf.alaska.edu/services/search/param",
        sensors: vec!["all", "sar", "sentinel1"],
        auth_env_any: Vec::new(),
    });
    v.push(SourceDefinition {
        id: "hyp3_api",
        label: "ASF HyP3 API",
        url: "https://hyp3-api.asf.alaska.edu/jobs",
        sensors: vec!["all", "sar", "sentinel1", "hyp3"],
        auth_env_any: vec!["EARTHDATA_TOKEN", "NASA_EARTHDATA_TOKEN"],
    });
    v.push(SourceDefinition {
        id: "cmr_granules",
        label: "NASA CMR Granules",
        url: "https://cmr.earthdata.nasa.gov/search/granules.json",
        sensors: vec!["all", "hls", "modis", "viirs", "icesat2", "swot", "thermal", "podaac"],
        auth_env_any: Vec::new(),
    });
    v.push(SourceDefinition {
        id: "usgs_m2m",
        label: "USGS EarthExplorer M2M",
        url: "https://m2m.cr.usgs.gov/api/api/json/stable/",
        sensors: vec!["all", "usgs", "thermal"],
        auth_env_any: vec!["USGS_API_KEY"],
    });
    v.push(SourceDefinition {
        id: "noaa_glsea",
        label: "NOAA CoastWatch GLSEA",
        url: "https://coastwatch.glerl.noaa.gov/erddap/griddap/GLSEA_GCS.nc",
        sensors: vec!["all", "sst", "thermal"],
        auth_env_any: Vec::new(),
    });
    v.push(SourceDefinition {
        id: "usgs_3dep",
        label: "USGS 3DEP TNM API",
        url: "https://tnmapi.cr.usgs.gov/api/products",
        sensors: vec!["all", "lidar", "dem", "bathymetry"],
        auth_env_any: Vec::new(),
    });
    assert(v@.map_values(|s: SourceDefinition| source_view(s)) =~~= catalog_spec());
    v
}


// ── Sensor selection ────────────────────────────────────────────────────────


/// The sensor name that the `i`-th comma-separated piece of `raw` gives:
/// trimmed, then lower-cased.
pub open spec fn sensor_piece(raw: Seq<char>, i: int) -> Seq<char> {
    lowercase_of(trim(split(raw, ',')[i]))
}

/// Whether `x` is among the sensors that the list `raw` asks for. A blank
/// list asks for `all`; otherwise each non-empty piece is one sensor.
pub open spec fn wanted_contains(raw: Seq<char>, x: Seq<char>) -> bool {
    if trim(raw).len() == 0 {
        x == "all"@
    } else {
        &&& x.len() > 0
        &&& exists|i: int| 0 <= i < split(raw, ',').len() && x == #[trigger] sensor_piece(raw, i)
    }
}

/// Whether `x` is the text of one of `v`'s strings.
fn has_name(v: &Vec<String>, x: &Vec<char>) -> (r: bool)
    ensures
        r == string_views(v@).contains(x@),
{
    let mut j: usize = 0;
    while j < v.len()
        invariant
            j <= v.len(),
            forall|k: int| 0 <= k < j ==> v@[k]@ != x@,
        decreases v.len() - j,
    {
        let cj = chars_of(v[j].as_str());
        if chars_eq(&cj, x) {
            assert(string_views(v@)[j as int] == x@);
            return true;
        }
        j = j + 1;
    }
    proof {
        if string_views(v@).contains(x@) {
            let k = choose|k: int| 0 <= k < string_views(v@).len() && string_views(v@)[k] == x@;
            assert(v@[k]@ == x@);
        }
    }
    false
}

/// The distinct sensor names asked for by a comma-separated list, in the
/// order in which they first occur.
pub fn parse_sensor_set(raw: &str) -> (r: Vec<String>)
    ensures
        string_views(r@).no_duplicates(),
        forall|x: Seq<char>| string_views(r@).contains(x) <==> wanted_contains(raw@, x),
{
    let chars = chars_of(raw);
    let whole = trim_exec(&chars);
    if whole.len() == 0 {
        let mut r: Vec<String> = Vec::new();
        r.push("all".to_owned());
        proof {
            assert(string_views(r@) =~= seq!["all"@]);
            assert forall|x: Seq<char>| string_views(r@).contains(x) <==> wanted_contains(raw@, x) by {
                if string_views(r@).contains(x) {
                    let k = choose|k: int| 0 <= k < string_views(r@).len() && string_views(r@)[k] == x;
                    assert(k == 0);
                }
                if x == "all"@ {
                    assert(string_views(r@)[0] == x);
                }
            }
        }
        return r;
    }
    let parts = split_exec(&chars, ',');
    let mut out: Vec<String> = Vec::new();
    let mut i: usize = 0;
    while i < parts.len()
        invariant
            i <= parts.len(),
            deep(parts@) == split(raw@, ','),
            string_views(out@).no_duplicates(),
            forall|x: Seq<char>| string_views(out@).contains(x) <==> (x.len() > 0 && exists|k: int|
                0 <= k < i && x == #[trigger] sensor_piece(raw@, k)),
        decreases parts.len() - i,
    {
        let piece = trim_exec(&parts[i]);
        let piece_text = string_of(&piece);
        let low = to_lowercase(piece_text.as_str());
        proof {
            assert(deep(parts@)[i as int] == parts@[i as int]@);
            assert(low@ == sensor_piece(raw@, i as int));
        }
        let ghost before = string_views(out@);
        if low.len() > 0 && !has_name(&out, &low) {
            out.push(string_of(&low));
            proof {
                assert(string_views(out@) =~= before.push(low@));
                assert forall|a: int, b: int| 0 <= a < b < string_views(out@).len() implies string_views(out@)[a] != string_views(out@)[b] by {
                    if b == before.len() {
                        assert(before[a] != low@);
                    }
                }
            }
        }
        proof {
            assert forall|x: Seq<char>| string_views(out@).contains(x) <==> (x.len() > 0 && exists|k: int|
                0 <= k < i + 1 && x == #[trigger] sensor_piece(raw@, k)) by {
                if x.len() > 0 && x == sensor_piece(raw@, i as int) {
                    if !before.contains(x) {
                        assert(string_views(out@)[string_views(out@).len() - 1] == x);
                    } else {
                        let k = choose|k: int| 0 <= k < before.len() && before[k] == x;
                        assert(string_views(out@)[k] == x);
                    }
                }
                if string_views(out@).contains(x) {
                    let k = choose|k: int| 0 <= k < string_views(out@).len() && string_views(out@)[k] == x;
                    if k < before.len() {
                        assert(before[k] == x);
                        assert(before.contains(x));
                    }
                }
                if before.contains(x) {
                    let k = choose|k: int| 0 <= k < before.len() && before[k] == x;
                    assert(string_views(out@)[k] == x);
                }
            }
        }
        i = i + 1;
    }
    proof {
        assert(trim(raw@).len() != 0);
        assert(split(raw@, ',').len() == parts.len()) by {
            assert(deep(parts@).len() == parts@.len());
        }
    }
    out
}

/// Whether a source serves one of the wanted sensors: every source serves
/// `all`, otherwise one of its sensor names must be wanted.
pub open spec fn selects(sensors: Seq<Seq<char>>, wanted: Seq<Seq<char>>) -> bool {
    wanted.contains("all"@) || exists|k: int| 0 <= k < sensors.len() && wanted.contains(#[trigger] sensors[k])
}

/// Whether `source` is selected by the wanted sensor names.
pub fn source_selected(source: &SourceDefinition, wanted: &Vec<String>) -> (r: bool)
    ensures
        r == selects(strs(source.sensors@), string_views(wanted@)),
{
    let all = chars_of("all");
    if has_name(wanted, &all) {
        return true;
    }
    let mut k: usize = 0;
    while k < source.sensors.len()
        invariant
            k <= source.sensors.len(),
            !string_views(wanted@).contains("all"@),
            forall|j: int| 0 <= j < k ==> !string_views(wanted@).contains(#[trigger] strs(source.sensors@)[j]),
        decreases source.sensors.len() - k,
    {
        let name = chars_of(source.sensors[k]);
        if has_name(wanted, &name) {
            assert(strs(source.sensors@)[k as int] == name@);
            return true;
        }
        k = k + 1;
    }
    false
}

// ── Credentials ─────────────────────────────────────────────────────────────

/// Whether the credentials of a source are present, given the value of each
/// of its variables (`None` where unset): a source that needs none always
/// has them, otherwise one of its variables must hold more than blanks.
pub open spec fn auth_present_spec(keys: nat, values: Seq<Option<Seq<char>>>) -> bool {
    keys == 0 || exists|i: int| 0 <= i < values.len() && filled(#[trigger] values[i])
}

/// A variable that is set to more than blanks.
pub open spec fn filled(value: Option<Seq<char>>) -> bool {
    match value {
        Some(v) => trim(v).len() > 0,
        None => false,
    }
}

/// The views of optional strings.
pub open spec fn opt_views(v: Seq<Option<String>>) -> Seq<Option<Seq<char>>> {
    v.map_values(|o: Option<String>| match o { Some(s) => Some(s@), None => None })
}

/// Whether `source` has its credentials; `values[i]` is the value of the
/// variable `source.auth_env_any[i]`, `None` where it is unset.
pub fn auth_present_with(source: &SourceDefinition, values: &Vec<Option<String>>) -> (r: bool)
    requires
        values.len() == source.auth_env_any.len(),
    ensures
        r == auth_present_spec(source.auth_env_any.len() as nat, opt_views(values@)),
{
    if source.auth_env_any.len() == 0 {
        return true;
    }
    let mut i: usize = 0;
    while i < values.len()
        invariant
            i <= values.len(),
            forall|j: int| 0 <= j < i ==> !filled(#[trigger] opt_views(values@)[j]),
        decreases values.len() - i,
    {
        match &values[i] {
            Some(v) => {
                let t = trim_exec(&chars_of(v.as_str()));
                if t.len() > 0 {
                    assert(opt_views(values@)[i as int] == Some(v@));
                    return true;
                }
                assert(opt_views(values@)[i as int] == Some(v@));
            },
            None => {
                assert(opt_views(values@)[i as int] == None::<Seq<char>>);
            },
        }
        i = i + 1;
    }
    false
}

/// The message for a selected source whose credentials are missing.
pub open spec fn missing_auth_text(keys: Seq<Seq<char>>) -> Seq<char> {
    "missing auth env (need one of: "@ + joined(keys) + ")"@
}

/// `keys` joined by `", "`.
pub open spec fn joined(keys: Seq<Seq<char>>) -> Seq<char>
    decreases keys.len(),
{
    if keys.len() == 0 {
        Seq::empty()
    } else if keys.len() == 1 {
        keys[0]
    } else {
        joined(keys.drop_last()) + ", "@ + keys.last()
    }
}

/// "missing auth env (need one of: A, B)" for the variables of `source`.
pub fn missing_auth_message(source: &SourceDefinition) -> (r: String)
    ensures
        r@ == missing_auth_text(strs(source.auth_env_any@)),
{
    let keys = &source.auth_env_any;
    let mut body: Vec<char> = Vec::new();
    let sep = chars_of(", ");
    let mut i: usize = 0;
    while i < keys.len()
        invariant
            i <= keys.len(),
            sep@ == ", "@,
            body@ == joined(strs(keys@).take(i as int)),
        decreases keys.len() - i,
    {
        let k = chars_of(keys[i]);
        let ghost prev = strs(keys@).take(i as int);
        if i > 0 {
            append_chars(&mut body, &sep);
        }
        append_chars(&mut body, &k);
        proof {
            let next = strs(keys@).take(i + 1);
            assert(next.drop_last() =~= prev);
            assert(next.last() == k@);
            if i == 0 {
                assert(body@ =~= k@);
            } else {
                assert(body@ =~= joined(prev) + ", "@ + k@);
            }
        }
        i = i + 1;
    }
    assert(strs(keys@).take(keys.len() as int) =~= strs(keys@));
    let mut out = chars_of("missing auth env (need one of: ");
    append_chars(&mut out, &body);
    let close = chars_of(")");
    append_chars(&mut out, &close);
    string_of(&out)
}

// ── Probing ─────────────────────────────────────────────────────────────────

/// Whether a source is fetched: it must be selected, and under strict
/// credential checking a source that needs credentials must have them.
pub open spec fn fetch_needed(selected: bool, strict_auth: bool, auth_required: bool, auth_ok: bool) -> bool {
    selected && !(strict_auth && auth_required && !auth_ok)
}

/// Whether the source is to be fetched (see `fetch_needed`).
pub fn needs_fetch(selected: bool, strict_auth: bool, auth_required: bool, auth_ok: bool) -> (r: bool)
    ensures
        r == fetch_needed(selected, strict_auth, auth_required, auth_ok),
{
    selected && !(strict_auth && auth_required && !auth_ok)
}

/// Whether an HTTP status counts as reachable: success or redirection.
pub open spec fn status_reachable(code: u16) -> bool {
    200 <= code <= 399
}

/// What came back from fetching a source's URL.
#[derive(Debug, Clone)]
pub enum FetchOutcome {
    /// An HTTP response: its status code and the status as text
    /// ("404 Not Found").
    Status(u16, String),
    /// The request failed; the error's text.
    Failed(String),
}

/// The probe record of one source. `fetched` is what came of fetching its URL,
/// `None` where no fetch was made (see `fetch_needed`).
pub fn probe_result(
    source: &SourceDefinition,
    selected: bool,
    strict_auth: bool,
    auth_ok: bool,
    fetched: Option<FetchOutcome>,
    elapsed_ms: u128,
) -> (r: SourceProbe)
    requires
        fetched is Some <==> fetch_needed(selected, strict_auth, source.auth_env_any.len() > 0, auth_ok),
    ensures
        r.id@ == source.id@,
        r.label@ == source.label@,
        r.url@ == source.url@,
        r.selected == selected,
        r.auth_required == (source.auth_env_any.len() > 0),
        r.auth_present == auth_ok,
        r.elapsed_ms == elapsed_ms,
        !selected ==> !r.reachable && r.status_code is None && r.message@ == Seq::<char>::empty(),
        selected && fetched is None ==> !r.reachable && r.status_code is None
            && r.message@ == missing_auth_text(strs(source.auth_env_any@)),
        fetched matches Some(FetchOutcome::Status(code, text)) ==> r.status_code == Some(code)
            && r.reachable == status_reachable(code)
            && r.message@ == (if status_reachable(code) { "reachable"@ } else { "http "@ + text@ }),
        fetched matches Some(FetchOutcome::Failed(e)) ==> !r.reachable && r.status_code is None
            && r.message@ == e@,
{
    let auth_required = source.auth_env_any.len() > 0;
    let mut reachable = false;
    let mut code: Option<u16> = None;
    let message: String;
    if !selected {
        message = String::new();
    } else {
        match fetched {
            None => {
                message = missing_auth_message(source);
            },
            Some(FetchOutcome::Status(c, text)) => {
                code = Some(c);
                if 200 <= c && c <= 399 {
                    reachable = true;
                    message = "reachable".to_owned();
                } else {
                    let mut m = chars_of("http ");
                    let t = chars_of(text.as_str());
                    append_chars(&mut m, &t);
                    message = string_of(&m);
                }
            },
            Some(FetchOutcome::Failed(e)) => {
                message = e;
            },
        }
    }
    SourceProbe {
        id: source.id.to_owned(),
        label: source.label.to_owned(),
        url: source.url.to_owned(),
        selected,
        auth_required,
        auth_present: auth_ok,
        reachable,
        status_code: code,
        elapsed_ms,
        message,
    }
}

/// A selected source whose credentials were missing under strict checking.
pub open spec fn auth_missing(p: SourceProbe, strict_auth: bool) -> bool {
    p.selected && strict_auth && p.auth_required && !p.auth_present
}

/// A selected source that was fetched and did not answer well.
pub open spec fn unreachable(p: SourceProbe, strict_auth: bool) -> bool {
    p.selected && !auth_missing(p, strict_auth) && !p.reachable
}

/// How many of `ps` satisfy `f`.
pub open spec fn count(ps: Seq<SourceProbe>, f: spec_fn(SourceProbe) -> bool) -> nat
    decreases ps.len(),
{
    if ps.len() == 0 {
        0
    } else {
        count(ps.drop_last(), f) + if f(ps.last()) { 1nat } else { 0nat }
    }
}

proof fn lemma_count_le(ps: Seq<SourceProbe>, f: spec_fn(SourceProbe) -> bool)
    ensures
        count(ps, f) <= ps.len(),
    decreases ps.len(),
{
    if ps.len() > 0 {
        lemma_count_le(ps.drop_last(), f);
    }
}

/// The report over all probes: how many selected sources were reachable,
/// lacked credentials, or were unreachable; it is good when at least one
/// was reachable and none lacked credentials.
pub fn finish_report(sensors: Vec<String>, strict_auth: bool, probes: Vec<SourceProbe>) -> (r: DownloadPreflightReport)
    ensures
        r.sensors@ == sensors@,
        r.strict_auth == strict_auth,
        r.probes@ == probes@,
        r.reachable_selected == count(probes@, |p: SourceProbe| p.reachable),
        r.auth_missing_selected == count(probes@, |p: SourceProbe| auth_missing(p, strict_auth)),
        r.unreachable_selected == count(probes@, |p: SourceProbe| unreachable(p, strict_auth)),
        r.ok == (r.reachable_selected > 0 && r.auth_missing_selected == 0),
{
    let ghost f_reach = |p: SourceProbe| p.reachable;
    let ghost f_miss = |p: SourceProbe| auth_missing(p, strict_auth);
    let ghost f_unr = |p: SourceProbe| unreachable(p, strict_auth);
    let mut reachable: usize = 0;
    let mut missing: usize = 0;
    let mut unreach: usize = 0;
    let mut i: usize = 0;
    while i < probes.len()
        invariant
            i <= probes.len(),
            reachable == count(probes@.take(i as int), f_reach),
            missing == count(probes@.take(i as int), f_miss),
            unreach == count(probes@.take(i as int), f_unr),
            f_reach == (|p: SourceProbe| p.reachable),
            f_miss == (|p: SourceProbe| auth_missing(p, strict_auth)),
            f_unr == (|p: SourceProbe| unreachable(p, strict_auth)),
        decreases probes.len() - i,
    {
        let p = &probes[i];
        proof {
            assert(probes@.take(i + 1).drop_last() =~= probes@.take(i as int));
            lemma_count_le(probes@.take(i as int), f_reach);
            lemma_count_le(probes@.take(i as int), f_miss);
            lemma_count_le(probes@.take(i as int), f_unr);
        }
        if p.reachable {
            reachable = reachable + 1;
        }
        let miss = p.selected && strict_auth && p.auth_required && !p.auth_present;
        if miss {
            missing = missing + 1;
        }
        if p.selected && !miss && !p.reachable {
            unreach = unreach + 1;
        }
        i = i + 1;
    }
    assert(probes@.take(probes.len() as int) =~= probes@);
    let ok = reachable > 0 && missing == 0;
    DownloadPreflightReport {
        sensors,
        strict_auth,
        ok,
        reachable_selected: reachable,
        auth_missing_selected: missing,
        unreachable_selected: unreach,
        probes,
    }
}

} // verus!
