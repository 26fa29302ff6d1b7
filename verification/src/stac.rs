//! Scene and granule catalogue helpers: which links of a NASA CMR granule are
//! downloads, which asset of a scene serves a band, and what an OPERA DSWx
//! fetch does with the granules it found.
use vstd::prelude::*;
use crate::text::string_views;
use crate::text::{chars_of, contains, contains_str, ends_with, ends_with_str, eq_str, lowercase_of, to_lowercase, string_of};

verus! {

/// Element84 Earth Search STAC endpoint.
pub const STAC_URL: &'static str = "https://earth-search.aws.element84.com/v1";

/// Sentinel-2 level-2A collection.
pub const S2_COLLECTION: &'static str = "sentinel-2-l2a";

/// NASA CMR granule search endpoint.
pub const CMR_URL: &'static str = "https://cmr.earthdata.nasa.gov/search/granules.json";

/// OPERA DSWx-HLS collection concept id.
pub const OPERA_DSWX_COLLECTION_ID: &'static str = "C2617126679-POCLOUD";

/// One entry of a granule's `links`: each field holds the text of that member
/// where it is present and a string, `None` otherwise.
#[derive(Debug, Clone)]
pub struct GranuleLink {
    pub rel: Option<String>,
    pub content_type: Option<String>,
    pub href: Option<String>,
}

/// A CMR granule entry as far as its download links go: `None` where it has
/// no `links` array.
#[derive(Debug, Clone)]
pub struct Granule {
    pub links: Option<Vec<GranuleLink>>,
}

/// The text of an optional string, empty where there is none.
pub open spec fn text_or_empty(o: Option<String>) -> Seq<char> {
    match o {
        Some(s) => s@,
        None => Seq::empty(),
    }
}

/// A link relation that names data: it mentions `data` or `browse`, or is
/// `http` or `https` (already lower-cased).
pub open spec fn rel_names_data(rel: Seq<char>) -> bool {
    contains(rel, "data"@) || contains(rel, "browse"@) || rel == "http"@ || rel == "https"@
}

/// A content type of a download (already lower-cased).
pub open spec fn download_type(t: Seq<char>) -> bool {
    t == "application/octet-stream"@ || t == "application/x-hdf"@ || t == "application/x-netcdf"@ || t
        == "image/tiff"@ || t == "image/png"@
}

/// A file extension of a download (on the lower-cased address).
pub open spec fn download_extension(h: Seq<char>) -> bool {
    ends_with(h, ".tif"@) || ends_with(h, ".tiff"@) || ends_with(h, ".nc"@) || ends_with(h, ".hdf"@)
        || ends_with(h, ".zip"@) || ends_with(h, ".tar.gz"@)
}

/// The download address a link gives, if any: it needs a non-empty `href`,
/// and a data relation, a download content type or a download extension.
pub open spec fn link_download(l: GranuleLink) -> Option<Seq<char>> {
    match l.href {
        Some(h) => if h@.len() > 0 && (rel_names_data(lowercase_of(text_or_empty(l.rel))) || download_type(
            lowercase_of(text_or_empty(l.content_type)),
        ) || download_extension(lowercase_of(h@))) {
            Some(h@)
        } else {
            None
        },
        None => None,
    }
}

/// The download addresses of `links`, in order.
pub open spec fn download_urls(links: Seq<GranuleLink>) -> Seq<Seq<char>>
    decreases links.len(),
{
    if links.len() == 0 {
        Seq::empty()
    } else {
        let rest = download_urls(links.drop_last());
        match link_download(links.last()) {
            Some(u) => rest.push(u),
            None => rest,
        }
    }
}


/// The lower-cased text of an optional string (of the empty text where absent).
fn lower_or_empty(o: &Option<String>) -> (r: Vec<char>)
    ensures
        r@ == lowercase_of(text_or_empty(*o)),
{
    match o {
        Some(s) => to_lowercase(s.as_str()),
        None => {
            let e = "";
            proof {
                reveal_strlit("");
            }
            assert(e@ =~= Seq::<char>::empty());
            to_lowercase(e)
        },
    }
}

/// The download address of one link (see `link_download`).
fn link_download_exec(l: &GranuleLink) -> (r: Option<String>)
    ensures
        match r {
            Some(s) => link_download(*l) == Some(s@),
            None => link_download(*l) is None,
        },
{
    match &l.href {
        None => None,
        Some(h) => {
            if h.as_str().unicode_len() == 0 {
                return None;
            }
            let rel = lower_or_empty(&l.rel);
            let ty = lower_or_empty(&l.content_type);
            let rel_ok = contains_str(&rel, "data") || contains_str(&rel, "browse") || eq_str(&rel, "http")
                || eq_str(&rel, "https");
            let type_ok = eq_str(&ty, "application/octet-stream") || eq_str(&ty, "application/x-hdf") || eq_str(
                &ty,
                "application/x-netcdf",
            ) || eq_str(&ty, "image/tiff") || eq_str(&ty, "image/png");
            if rel_ok || type_ok {
                return Some(h.clone());
            }
            let lower = to_lowercase(h.as_str());
            if ends_with_str(&lower, ".tif") || ends_with_str(&lower, ".tiff") || ends_with_str(&lower, ".nc")
                || ends_with_str(&lower, ".hdf") || ends_with_str(&lower, ".zip") || ends_with_str(
                &lower,
                ".tar.gz",
            ) {
                Some(h.clone())
            } else {
                None
            }
        },
    }
}

/// The candidate download addresses of a CMR granule: each link with a
/// non-empty `href` whose relation mentions `data` or `browse` or is
/// `http`/`https`, whose content type is a download type, or whose address
/// ends in a download extension; none where the granule has no links.
pub fn extract_download_urls(granule: &Granule) -> (r: Vec<String>)
    ensures
        string_views(r@) == match granule.links {
            Some(links) => download_urls(links@),
            None => Seq::empty(),
        },
{
    let mut urls: Vec<String> = Vec::new();
    match &granule.links {
        None => {
            assert(string_views(urls@) =~= Seq::<Seq<char>>::empty());
            urls
        },
        Some(links) => {
            let mut i: usize = 0;
            while i < links.len()
                invariant
                    i <= links.len(),
                    string_views(urls@) == download_urls(links@.take(i as int)),
                decreases links.len() - i,
            {
                let got = link_download_exec(&links[i]);
                proof {
                    assert(links@.take(i + 1).drop_last() =~= links@.take(i as int));
                    assert(links@.take(i + 1).last() == links@[i as int]);
                }
                match got {
                    Some(u) => {
                        let ghost before = urls@;
                        urls.push(u);
                        assert(string_views(urls@) =~= string_views(before).push(u@));
                    },
                    None => {},
                }
                i = i + 1;
            }
            assert(links@.take(links.len() as int) =~= links@);
            urls
        },
    }
}


// ── Scene assets ────────────────────────────────────────────────────────────

/// The asset addresses of a scene, keyed by band name.
#[derive(Debug, Clone)]
pub struct SceneAssets {
    pub assets: Vec<(String, String)>,
}

/// The address stored under `key`: that of the first entry with this key.
pub open spec fn asset_lookup(assets: Seq<(String, String)>, key: Seq<char>) -> Option<Seq<char>>
    decreases assets.len(),
{
    if assets.len() == 0 {
        None
    } else if assets[0].0@ == key {
        Some(assets[0].1@)
    } else {
        asset_lookup(assets.drop_first(), key)
    }
}

/// The last character of a band name, `'0'` for an empty one.
pub open spec fn band_digit(band: Seq<char>) -> char {
    if band.len() > 0 {
        band.last()
    } else {
        '0'
    }
}

/// The names a band is looked up under, in order: as given, lower-cased,
/// then `B0` and `b0` followed by its last character.
pub open spec fn band_aliases(band: Seq<char>) -> Seq<Seq<char>> {
    seq![band, lowercase_of(band), "B0"@.push(band_digit(band)), "b0"@.push(band_digit(band))]
}

/// The address under the first of `aliases` that has one.
pub open spec fn first_alias_hit(assets: Seq<(String, String)>, aliases: Seq<Seq<char>>) -> Option<Seq<char>>
    decreases aliases.len(),
{
    if aliases.len() == 0 {
        None
    } else {
        match asset_lookup(assets, aliases[0]) {
            Some(h) => Some(h),
            None => first_alias_hit(assets, aliases.drop_first()),
        }
    }
}

proof fn lemma_lookup_step(assets: Seq<(String, String)>, key: Seq<char>, i: int)
    requires
        0 <= i < assets.len(),
        forall|k: int| 0 <= k < i ==> #[trigger] assets[k].0@ != key,
    ensures
        asset_lookup(assets, key) == asset_lookup(assets.skip(i), key),
    decreases i,
{
    if i > 0 {
        assert(assets.skip(1) =~= assets.drop_first());
        lemma_lookup_step(assets.drop_first(), key, i - 1);
        assert(assets.drop_first().skip(i - 1) =~= assets.skip(i));
    } else {
        assert(assets.skip(0) =~= assets);
    }
}

impl SceneAssets {
    /// The address stored under `key` (see `asset_lookup`).
    fn lookup(&self, key: &Vec<char>) -> (r: Option<String>)
        ensures
            match r {
                Some(h) => asset_lookup(self.assets@, key@) == Some(h@),
                None => asset_lookup(self.assets@, key@) is None,
            },
    {
        let mut i: usize = 0;
        while i < self.assets.len()
            invariant
                i <= self.assets.len(),
                forall|k: int| 0 <= k < i ==> #[trigger] self.assets@[k].0@ != key@,
            decreases self.assets.len() - i,
        {
            let name = chars_of(self.assets[i].0.as_str());
            if crate::text::chars_eq(&name, key) {
                proof {
                    lemma_lookup_step(self.assets@, key@, i as int);
                    assert(self.assets@.skip(i as int)[0] == self.assets@[i as int]);
                }
                return Some(self.assets[i].1.clone());
            }
            i = i + 1;
        }
        proof {
            lemma_lookup_all(self.assets@, key@);
        }
        None
    }

    /// The address of band `band`: the first asset found under the band name,
    /// its lower-case form, or `B0`/`b0` followed by its last character.
    pub fn asset_href(&self, band: &str) -> (r: Option<String>)
        ensures
            match r {
                Some(h) => first_alias_hit(self.assets@, band_aliases(band@)) == Some(h@),
                None => first_alias_hit(self.assets@, band_aliases(band@)) is None,
            },
    {
        let b = chars_of(band);
        let lower = to_lowercase(band);
        let digit = if b.len() > 0 { b[b.len() - 1] } else { '0' };
        let mut upper_alias = chars_of("B0");
        upper_alias.push(digit);
        let mut lower_alias = chars_of("b0");
        lower_alias.push(digit);
        let ghost aliases = band_aliases(band@);
        let ghost a1 = aliases.drop_first();
        let ghost a2 = a1.drop_first();
        let ghost a3 = a2.drop_first();
        proof {
            assert(aliases[0] == b@);
            assert(a1[0] == lower@);
            assert(a2[0] == upper_alias@) by {
                assert(upper_alias@ =~= "B0"@.push(band_digit(band@)));
            }
            assert(a3[0] == lower_alias@) by {
                assert(lower_alias@ =~= "b0"@.push(band_digit(band@)));
            }
            assert(a3.drop_first().len() == 0);
            assert(first_alias_hit(self.assets@, a3.drop_first()) is None);
        }
        match self.lookup(&b) {
            Some(h) => {
                return Some(h);
            },
            None => {},
        }
        assert(first_alias_hit(self.assets@, aliases) == first_alias_hit(self.assets@, a1));
        match self.lookup(&lower) {
            Some(h) => {
                return Some(h);
            },
            None => {},
        }
        assert(first_alias_hit(self.assets@, a1) == first_alias_hit(self.assets@, a2));
        match self.lookup(&upper_alias) {
            Some(h) => {
                return Some(h);
            },
            None => {},
        }
        assert(first_alias_hit(self.assets@, a2) == first_alias_hit(self.assets@, a3));
        self.lookup(&lower_alias)
    }
}

proof fn lemma_lookup_all(assets: Seq<(String, String)>, key: Seq<char>)
    requires
        forall|k: int| 0 <= k < assets.len() ==> #[trigger] assets[k].0@ != key,
    ensures
        asset_lookup(assets, key) is None,
    decreases assets.len(),
{
    if assets.len() > 0 {
        assert(assets[0].0@ != key);
        assert forall|k: int| 0 <= k < assets.drop_first().len() implies #[trigger] assets.drop_first()[k].0@ != key by {
            assert(assets.drop_first()[k] == assets[k + 1]);
        }
        lemma_lookup_all(assets.drop_first(), key);
    }
}

// ── OPERA DSWx fetch ────────────────────────────────────────────────────────

/// Result of an OPERA DSWx fetch.
#[derive(Debug, Clone)]
pub struct OperaDswxResult {
    pub collection_concept_id: String,
    pub n_granules: usize,
    /// Download addresses of the first granule (the one that is fetched).
    pub download_urls: Vec<String>,
    /// Where the file was written (`None` when the download did not run).
    pub output_path: Option<String>,
    /// Whether the download ran.
    pub downloaded: bool,
    pub note: String,
}

/// Why an OPERA DSWx fetch gave up.
#[derive(Debug, Clone, Copy, PartialEq, Eq)]
pub enum OperaError {
    /// The granule search found nothing.
    NoGranules,
    /// The first granule has no download address.
    NoDownloadUrls,
}

/// The text an OPERA error is shown as.
pub open spec fn opera_error_text(e: OperaError) -> Seq<char> {
    match e {
        OperaError::NoGranules => "No granules found for the specified parameters"@,
        OperaError::NoDownloadUrls => "No download URLs found for the first granule"@,
    }
}

impl OperaError {
    /// The text of the error.
    pub fn message(&self) -> (r: String)
        ensures
            r@ == opera_error_text(*self),
    {
        match self {
            OperaError::NoGranules => "No granules found for the specified parameters".to_owned(),
            OperaError::NoDownloadUrls => "No download URLs found for the first granule".to_owned(),
        }
    }
}

/// What to do once the granules are known.
#[derive(Debug, Clone)]
pub enum OperaPlan {
    /// Report without downloading.
    Report(OperaDswxResult),
    /// Download the first address of `urls` (the first granule's addresses).
    Fetch { n_granules: usize, urls: Vec<String> },
}

/// A token is present when the variable holds more than blanks.
pub open spec fn token_set(value: Option<Seq<char>>) -> bool {
    match value {
        Some(v) => crate::text::trim(v).len() > 0,
        None => false,
    }
}

/// Whether the value of the token variable (`None` where unset) counts as a token.
pub fn token_present(value: &Option<String>) -> (r: bool)
    ensures
        r == token_set(match *value { Some(s) => Some(s@), None => None }),
{
    match value {
        Some(v) => crate::text::trim_exec(&chars_of(v.as_str())).len() > 0,
        None => false,
    }
}

/// The note of a fetch that did not download.
pub open spec fn skipped_note(token_present: bool) -> Seq<char> {
    if !token_present {
        "download skipped: NASA_EARTHDATA_TOKEN not set (request + parse only)"@
    } else {
        "download gated off (live_download=false); request + parse only"@
    }
}

/// The download addresses of the first granule.
pub open spec fn first_granule_urls(granules: Seq<Granule>) -> Seq<Seq<char>> {
    match granules[0].links {
        Some(links) => download_urls(links@),
        None => Seq::empty(),
    }
}

/// Decides an OPERA DSWx fetch from the granules found: no granules, or no
/// download address in the first, is an error; the download runs only when
/// asked for and a token is present; otherwise the addresses are reported
/// with a note saying why nothing was downloaded.
pub fn plan_opera_fetch(granules: &Vec<Granule>, live_download: bool, token_present: bool) -> (r: Result<
    OperaPlan,
    OperaError,
>)
    ensures
        granules.len() == 0 ==> r == Err::<OperaPlan, OperaError>(OperaError::NoGranules),
        granules.len() > 0 && first_granule_urls(granules@).len() == 0 ==> r == Err::<OperaPlan, OperaError>(
            OperaError::NoDownloadUrls,
        ),
        granules.len() > 0 && first_granule_urls(granules@).len() > 0 ==> match r {
            Ok(OperaPlan::Report(res)) => !(live_download && token_present) && res.collection_concept_id@
                == OPERA_DSWX_COLLECTION_ID@ && res.n_granules == granules.len() && string_views(res.download_urls@)
                == first_granule_urls(granules@) && res.output_path is None && !res.downloaded && res.note@
                == skipped_note(token_present),
            Ok(OperaPlan::Fetch { n_granules, urls }) => live_download && token_present && n_granules
                == granules.len() && string_views(urls@) == first_granule_urls(granules@),
            Err(_) => false,
        },
{
    if granules.len() == 0 {
        return Err(OperaError::NoGranules);
    }
    let urls = extract_download_urls(&granules[0]);
    if urls.len() == 0 {
        return Err(OperaError::NoDownloadUrls);
    }
    if !live_download || !token_present {
        let note = if !token_present {
            "download skipped: NASA_EARTHDATA_TOKEN not set (request + parse only)".to_owned()
        } else {
            "download gated off (live_download=false); request + parse only".to_owned()
        };
        return Ok(
            OperaPlan::Report(
                OperaDswxResult {
                    collection_concept_id: OPERA_DSWX_COLLECTION_ID.to_owned(),
                    n_granules: granules.len(),
                    download_urls: urls,
                    output_path: None,
                    downloaded: false,
                    note,
                },
            ),
        );
    }
    Ok(OperaPlan::Fetch { n_granules: granules.len(), urls })
}

/// The result of a fetch whose download wrote `output_path`.
pub fn opera_downloaded(n_granules: usize, urls: Vec<String>, output_path: String) -> (r: OperaDswxResult)
    ensures
        r.collection_concept_id@ == OPERA_DSWX_COLLECTION_ID@,
        r.n_granules == n_granules,
        r.download_urls@ == urls@,
        r.output_path == Some(output_path),
        r.downloaded,
        r.note@ == "downloaded first granule"@,
{
    OperaDswxResult {
        collection_concept_id: OPERA_DSWX_COLLECTION_ID.to_owned(),
        n_granules,
        download_urls: urls,
        output_path: Some(output_path),
        downloaded: true,
        note: "downloaded first granule".to_owned(),
    }
}

// ── Local image chips ───────────────────────────────────────────────────────

/// A file extension (lower-cased) of an image chip.
pub open spec fn chip_extension(lower: Seq<char>) -> bool {
    lower == "png"@ || lower == "jpg"@ || lower == "jpeg"@ || lower == "tif"@ || lower == "tiff"@
}

/// Whether a file with this extension is an image chip: png, jpg, jpeg, tif
/// or tiff, in any case.
pub fn is_chip_extension(ext: &str) -> (r: bool)
    ensures
        r == chip_extension(lowercase_of(ext@)),
{
    let lower = to_lowercase(ext);
    eq_str(&lower, "png") || eq_str(&lower, "jpg") || eq_str(&lower, "jpeg") || eq_str(&lower, "tif") || eq_str(
        &lower,
        "tiff",
    )
}

// ── Scene search filters ────────────────────────────────────────────────────

/// A scene of month `month` passes the month filter: an empty filter passes
/// every month.
pub fn month_wanted(month_filter: &Vec<u32>, month: u32) -> (r: bool)
    ensures
        r == (month_filter.len() == 0 || month_filter@.contains(month)),
{
    if month_filter.len() == 0 {
        return true;
    }
    let mut k: usize = 0;
    while k < month_filter.len()
        invariant
            k <= month_filter.len(),
            forall|j: int| 0 <= j < k ==> month_filter@[j] != month,
        decreases month_filter.len() - k,
    {
        if month_filter[k] == month {
            assert(month_filter@[k as int] == month);
            return true;
        }
        k = k + 1;
    }
    false
}

/// The STAC `datetime` interval for a day range: from the start of the first
/// day to the end of the last.
pub open spec fn datetime_range_text(start: Seq<char>, end: Seq<char>) -> Seq<char> {
    start + "T00:00:00Z/"@ + end + "T23:59:59Z"@
}

pub fn stac_datetime_range(start: &str, end: &str) -> (r: String)
    ensures
        r@ == datetime_range_text(start@, end@),
{
    let mut out = chars_of(start);
    crate::text::append_chars(&mut out, &chars_of("T00:00:00Z/"));
    crate::text::append_chars(&mut out, &chars_of(end));
    crate::text::append_chars(&mut out, &chars_of("T23:59:59Z"));
    string_of(&out)
}

} // verus!
