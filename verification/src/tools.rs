//! The worker's tool dispatch: which tool a name calls, which calls restart
//! the search budget, the search budget itself, where relative paths point
//! and which detection service is addressed.
use vstd::prelude::*;
use crate::text::{chars_of, string_of, ends_with};
use crate::mission::{join_path, path_join};
use crate::edge::{strip_suffixes, strip_suffixes_exec};

verus! {

/// The tools a worker runs.
#[derive(Debug, Clone, Copy, PartialEq, Eq, Structural)]
pub enum ToolKind {
    WriteFile,
    ReadFile,
    CargoCheck,
    ThinkHarder,
    Remember,
    RunCommand,
    /// A symbol tool served by the SymForge server, by its position in
    /// `symforge_tool_names`.
    Symforge(u8),
    SearchText,
    ScanRegion,
    MagneticDipoleDetect,
    DownloadSatelliteWindow,
    WeatherWindow,
    DetectionHealth,
    DetectionScan,
    DetectionPoll,
    SatMission,
    SatReadMissionReport,
    Unknown,
}

/// The symbol tools forwarded to the SymForge server.
pub open spec fn symforge_tool_names() -> Seq<Seq<char>> {
    seq![
        "search_symbols"@,
        "get_symbol"@,
        "get_file_context"@,
        "replace_symbol_body"@,
        "edit_within_symbol"@,
        "insert_symbol"@,
        "delete_symbol"@,
        "batch_edit"@,
        "batch_rename"@,
    ]
}

/// The tool a name calls.
pub open spec fn tool_named(name: Seq<char>) -> ToolKind {
    if name == "write_file"@ {
        ToolKind::WriteFile
    } else if name == "read_file"@ {
        ToolKind::ReadFile
    } else if name == "cargo_check"@ {
        ToolKind::CargoCheck
    } else if name == "think_harder"@ {
        ToolKind::ThinkHarder
    } else if name == "remember"@ {
        ToolKind::Remember
    } else if name == "run_command"@ {
        ToolKind::RunCommand
    } else if name == "search_symbols"@ {
        ToolKind::Symforge(0)
    } else if name == "get_symbol"@ {
        ToolKind::Symforge(1)
    } else if name == "get_file_context"@ {
        ToolKind::Symforge(2)
    } else if name == "replace_symbol_body"@ {
        ToolKind::Symforge(3)
    } else if name == "edit_within_symbol"@ {
        ToolKind::Symforge(4)
    } else if name == "insert_symbol"@ {
        ToolKind::Symforge(5)
    } else if name == "delete_symbol"@ {
        ToolKind::Symforge(6)
    } else if name == "batch_edit"@ {
        ToolKind::Symforge(7)
    } else if name == "batch_rename"@ {
        ToolKind::Symforge(8)
    } else if name == "search_text"@ {
        ToolKind::SearchText
    } else if name == "scan_region"@ {
        ToolKind::ScanRegion
    } else if name == "magnetic_dipole_detect"@ {
        ToolKind::MagneticDipoleDetect
    } else if name == "download_satellite_window"@ {
        ToolKind::DownloadSatelliteWindow
    } else if name == "weather_window"@ {
        ToolKind::WeatherWindow
    } else if name == "detection_health"@ {
        ToolKind::DetectionHealth
    } else if name == "detection_scan"@ {
        ToolKind::DetectionScan
    } else if name == "detection_poll"@ {
        ToolKind::DetectionPoll
    } else if name == "sat_mission"@ {
        ToolKind::SatMission
    } else if name == "sat_read_mission_report"@ {
        ToolKind::SatReadMissionReport
    } else {
        ToolKind::Unknown
    }
}

/// The SymForge tool at position `i` of `symforge_tool_names`.
fn symforge_name(i: usize) -> (r: &'static str)
    requires
        i < 9,
    ensures
        r@ == symforge_tool_names()[i as int],
{
    match i {
        0 => "search_symbols",
        1 => "get_symbol",
        2 => "get_file_context",
        3 => "replace_symbol_body",
        4 => "edit_within_symbol",
        5 => "insert_symbol",
        6 => "delete_symbol",
        7 => "batch_edit",
        _ => "batch_rename",
    }
}

/// The name the SymForge server knows a forwarded tool by.
pub fn symforge_tool(index: u8) -> (r: Option<&'static str>)
    ensures
        index < 9 ==> (r matches Some(s) && s@ == symforge_tool_names()[index as int]),
        index >= 9 ==> r is None,
{
    if index < 9 {
        Some(symforge_name(index as usize))
    } else {
        None
    }
}

/// The tool a name calls (see `tool_named`).
pub fn route_tool(name: &str) -> (r: ToolKind)
    ensures
        r == tool_named(name@),
{
    let n = chars_of(name);
    if crate::text::eq_str(&n, "write_file") {
        return ToolKind::WriteFile;
    }
    if crate::text::eq_str(&n, "read_file") {
        return ToolKind::ReadFile;
    }
    if crate::text::eq_str(&n, "cargo_check") {
        return ToolKind::CargoCheck;
    }
    if crate::text::eq_str(&n, "think_harder") {
        return ToolKind::ThinkHarder;
    }
    if crate::text::eq_str(&n, "remember") {
        return ToolKind::Remember;
    }
    if crate::text::eq_str(&n, "run_command") {
        return ToolKind::RunCommand;
    }
    if crate::text::eq_str(&n, "search_symbols") {
        return ToolKind::Symforge(0);
    }
    if crate::text::eq_str(&n, "get_symbol") {
        return ToolKind::Symforge(1);
    }
    if crate::text::eq_str(&n, "get_file_context") {
        return ToolKind::Symforge(2);
    }
    if crate::text::eq_str(&n, "replace_symbol_body") {
        return ToolKind::Symforge(3);
    }
    if crate::text::eq_str(&n, "edit_within_symbol") {
        return ToolKind::Symforge(4);
    }
    if crate::text::eq_str(&n, "insert_symbol") {
        return ToolKind::Symforge(5);
    }
    if crate::text::eq_str(&n, "delete_symbol") {
        return ToolKind::Symforge(6);
    }
    if crate::text::eq_str(&n, "batch_edit") {
        return ToolKind::Symforge(7);
    }
    if crate::text::eq_str(&n, "batch_rename") {
        return ToolKind::Symforge(8);
    }
    if crate::text::eq_str(&n, "search_text") {
        return ToolKind::SearchText;
    }
    if crate::text::eq_str(&n, "scan_region") {
        return ToolKind::ScanRegion;
    }
    if crate::text::eq_str(&n, "magnetic_dipole_detect") {
        return ToolKind::MagneticDipoleDetect;
    }
    if crate::text::eq_str(&n, "download_satellite_window") {
        return ToolKind::DownloadSatelliteWindow;
    }
    if crate::text::eq_str(&n, "weather_window") {
        return ToolKind::WeatherWindow;
    }
    if crate::text::eq_str(&n, "detection_health") {
        return ToolKind::DetectionHealth;
    }
    if crate::text::eq_str(&n, "detection_scan") {
        return ToolKind::DetectionScan;
    }
    if crate::text::eq_str(&n, "detection_poll") {
        return ToolKind::DetectionPoll;
    }
    if crate::text::eq_str(&n, "sat_mission") {
        return ToolKind::SatMission;
    }
    if crate::text::eq_str(&n, "sat_read_mission_report") {
        return ToolKind::SatReadMissionReport;
    }
    ToolKind::Unknown
}

/// The name a tool is advertised and called by; the unknown tool has none,
/// and a SymForge tool past the end of `symforge_tool_names` has none either.
pub open spec fn tool_name(kind: ToolKind) -> Seq<char> {
    match kind {
        ToolKind::WriteFile => "write_file"@,
        ToolKind::ReadFile => "read_file"@,
        ToolKind::CargoCheck => "cargo_check"@,
        ToolKind::ThinkHarder => "think_harder"@,
        ToolKind::Remember => "remember"@,
        ToolKind::RunCommand => "run_command"@,
        ToolKind::Symforge(i) => if i < 9 { symforge_tool_names()[i as int] } else { Seq::empty() },
        ToolKind::SearchText => "search_text"@,
        ToolKind::ScanRegion => "scan_region"@,
        ToolKind::MagneticDipoleDetect => "magnetic_dipole_detect"@,
        ToolKind::DownloadSatelliteWindow => "download_satellite_window"@,
        ToolKind::WeatherWindow => "weather_window"@,
        ToolKind::DetectionHealth => "detection_health"@,
        ToolKind::DetectionScan => "detection_scan"@,
        ToolKind::DetectionPoll => "detection_poll"@,
        ToolKind::SatMission => "sat_mission"@,
        ToolKind::SatReadMissionReport => "sat_read_mission_report"@,
        ToolKind::Unknown => Seq::empty(),
    }
}

/// Whether a tool kind is one that a name can call.
pub open spec fn is_routable(kind: ToolKind) -> bool {
    match kind {
        ToolKind::Unknown => false,
        ToolKind::Symforge(i) => i < 9,
        _ => true,
    }
}

/// A name routes to a tool other than the unknown one only if it is that
/// tool's own name; so two different names never route to the same tool.
pub proof fn lemma_tool_routed_only_by_its_name(name: Seq<char>)
    ensures
        tool_named(name) != ToolKind::Unknown ==> is_routable(tool_named(name)) && name == tool_name(tool_named(name)),
        forall|other: Seq<char>| tool_named(name) != ToolKind::Unknown && #[trigger] tool_named(other) == tool_named(name) ==> other == name,
{
    assert forall|other: Seq<char>| tool_named(name) != ToolKind::Unknown && #[trigger] tool_named(other) == tool_named(name) implies other == name by {
        assert(other == tool_name(tool_named(other)));
    }
}

/// Every tool that a name can call is called by its own name: routing the
/// name of a tool gives that tool back.
pub proof fn lemma_tool_name_routes_back(kind: ToolKind)
    requires
        is_routable(kind),
    ensures
        tool_named(tool_name(kind)) == kind,
{
    reveal_strlit("write_file");
    reveal_strlit("read_file");
    reveal_strlit("cargo_check");
    reveal_strlit("think_harder");
    reveal_strlit("remember");
    reveal_strlit("run_command");
    reveal_strlit("search_symbols");
    reveal_strlit("get_symbol");
    reveal_strlit("get_file_context");
    reveal_strlit("replace_symbol_body");
    reveal_strlit("edit_within_symbol");
    reveal_strlit("insert_symbol");
    reveal_strlit("delete_symbol");
    reveal_strlit("batch_edit");
    reveal_strlit("batch_rename");
    reveal_strlit("search_text");
    reveal_strlit("scan_region");
    reveal_strlit("magnetic_dipole_detect");
    reveal_strlit("download_satellite_window");
    reveal_strlit("weather_window");
    reveal_strlit("detection_health");
    reveal_strlit("detection_scan");
    reveal_strlit("detection_poll");
    reveal_strlit("sat_mission");
    reveal_strlit("sat_read_mission_report");
    assert("write_file"@.len() == 10);
    assert("read_file"@.len() == 9);
    assert("cargo_check"@.len() == 11);
    assert("think_harder"@.len() == 12);
    assert("remember"@.len() == 8);
    assert("run_command"@.len() == 11);
    assert("search_symbols"@.len() == 14);
    assert("get_symbol"@.len() == 10);
    assert("get_file_context"@.len() == 16);
    assert("replace_symbol_body"@.len() == 19);
    assert("edit_within_symbol"@.len() == 18);
    assert("insert_symbol"@.len() == 13);
    assert("delete_symbol"@.len() == 13);
    assert("batch_edit"@.len() == 10);
    assert("batch_rename"@.len() == 12);
    assert("search_text"@.len() == 11);
    assert("scan_region"@.len() == 11);
    assert("magnetic_dipole_detect"@.len() == 22);
    assert("download_satellite_window"@.len() == 25);
    assert("weather_window"@.len() == 14);
    assert("detection_health"@.len() == 16);
    assert("detection_scan"@.len() == 14);
    assert("detection_poll"@.len() == 14);
    assert("sat_mission"@.len() == 11);
    assert("sat_read_mission_report"@.len() == 23);
    assert("get_symbol"@[0] != "write_file"@[0]);
    assert("batch_edit"@[0] != "write_file"@[0]);
    assert("batch_edit"@[0] != "get_symbol"@[0]);
    assert("run_command"@[0] != "cargo_check"@[0]);
    assert("search_text"@[0] != "cargo_check"@[0]);
    assert("search_text"@[0] != "run_command"@[0]);
    assert("scan_region"@[0] != "cargo_check"@[0]);
    assert("scan_region"@[0] != "run_command"@[0]);
    assert("scan_region"@[1] != "search_text"@[1]);
    assert("sat_mission"@[0] != "cargo_check"@[0]);
    assert("sat_mission"@[0] != "run_command"@[0]);
    assert("sat_mission"@[1] != "search_text"@[1]);
    assert("sat_mission"@[1] != "scan_region"@[1]);
    assert("batch_rename"@[0] != "think_harder"@[0]);
    assert("delete_symbol"@[0] != "insert_symbol"@[0]);
    assert("weather_window"@[0] != "search_symbols"@[0]);
    assert("detection_scan"@[0] != "search_symbols"@[0]);
    assert("detection_scan"@[0] != "weather_window"@[0]);
    assert("detection_poll"@[0] != "search_symbols"@[0]);
    assert("detection_poll"@[0] != "weather_window"@[0]);
    assert("detection_poll"@[10] != "detection_scan"@[10]);
    assert("detection_health"@[0] != "get_file_context"@[0]);
}

/// Whether a call of the tool starts a fresh search budget: writing,
/// reading, checking, remembering, and searching itself do.
pub fn resets_think_counter(kind: ToolKind) -> (r: bool)
    ensures
        r == (kind == ToolKind::WriteFile || kind == ToolKind::ReadFile || kind == ToolKind::CargoCheck || kind
            == ToolKind::ThinkHarder || kind == ToolKind::Remember),
{
    match kind {
        ToolKind::WriteFile | ToolKind::ReadFile | ToolKind::CargoCheck | ToolKind::ThinkHarder | ToolKind::Remember => true,
        _ => false,
    }
}

/// The reply to a call of a tool that does not exist.
pub open spec fn unknown_tool_text(name: Seq<char>) -> Seq<char> {
    "Unknown tool: "@ + name
        + ". Available tools: read_file, write_file, run_command, think_harder, cargo_check, remember, scan_region, magnetic_dipole_detect, download_satellite_window, weather_window, detection_health, detection_scan, detection_poll, sat_mission, sat_read_mission_report"@
}

/// The reply to a call of a tool that does not exist.
pub fn unknown_tool_message(name: &str) -> (r: String)
    ensures
        r@ == unknown_tool_text(name@),
{
    let mut v = chars_of("Unknown tool: ");
    crate::text::append_chars(&mut v, &chars_of(name));
    crate::text::append_chars(
        &mut v,
        &chars_of(
            ". Available tools: read_file, write_file, run_command, think_harder, cargo_check, remember, scan_region, magnetic_dipole_detect, download_satellite_window, weather_window, detection_health, detection_scan, detection_poll, sat_mission, sat_read_mission_report",
        ),
    );
    string_of(&v)
}

// ── Search budget ───────────────────────────────────────────────────────────

/// How many searches a session may make: no limit short of the counter's range.
pub const THINK_HARDER_LIMIT: u32 = 0xffff_ffff;

/// The count of searches made in a session.
#[derive(Debug)]
pub struct ThinkCounter {
    pub count: u32,
}

impl ThinkCounter {
    /// A counter at zero.
    pub fn new() -> (r: ThinkCounter)
        ensures
            r.count == 0,
    {
        ThinkCounter { count: 0 }
    }

    /// Counts one more search and says whether it may run: the count goes up
    /// (wrapping at the top of its range) and the search runs while the count
    /// before it was under the limit.
    pub fn take(&mut self) -> (allowed: bool)
        ensures
            final(self).count == (if old(self).count == u32::MAX { 0 } else { old(self).count + 1 }),
            allowed == (old(self).count < THINK_HARDER_LIMIT),
    {
        let before = self.count;
        self.count = before.wrapping_add(1);
        before < THINK_HARDER_LIMIT
    }
}

/// Starts a fresh search budget.
pub fn reset_think_counter(counter: &mut ThinkCounter)
    ensures
        final(counter).count == 0,
{
    counter.count = 0;
}

/// The reply when the search budget is spent.
pub fn think_limit_message() -> (r: String)
    ensures
        r@ == "Error: think_harder limit reached"@,
{
    "Error: think_harder limit reached".to_owned()
}

// ── Paths and service addresses ─────────────────────────────────────────────

/// A path given to a tool, taken relative to the project root unless absolute.
pub fn resolve_path(relative: &str, project_root: &str) -> (r: String)
    ensures
        r@ == path_join(project_root@, relative@),
{
    join_path(project_root, relative)
}

/// `s` without any trailing `/`.
pub open spec fn strip_trailing_slashes(s: Seq<char>) -> Seq<char>
    decreases s.len(),
{
    if s.len() > 0 && s.last() == '/' {
        strip_trailing_slashes(s.drop_last())
    } else {
        s
    }
}

/// The base address of the detection service: the configured one when it is
/// set and non-empty, else `http://10.0.0.201:5580`, without trailing `/`.
pub fn detection_base_url(configured: Option<String>) -> (r: String)
    ensures
        r@ == strip_trailing_slashes(
            match configured {
                Some(s) => if s@.len() > 0 {
                    s@
                } else {
                    "http://10.0.0.201:5580"@
                },
                None => "http://10.0.0.201:5580"@,
            },
        ),
{
    let base = match configured {
        Some(s) => if s.as_str().unicode_len() > 0 {
            s
        } else {
            "http://10.0.0.201:5580".to_owned()
        },
        None => "http://10.0.0.201:5580".to_owned(),
    };
    let v = chars_of(base.as_str());
    let mut end: usize = v.len();
    assert(v@.take(v.len() as int) =~= v@);
    while end > 0 && v[end - 1] == '/'
        invariant
            end <= v.len(),
            strip_trailing_slashes(v@) == strip_trailing_slashes(v@.take(end as int)),
        decreases end,
    {
        assert(v@.take(end as int).drop_last() =~= v@.take(end - 1));
        end = end - 1;
    }
    let mut out: Vec<char> = Vec::new();
    let mut k: usize = 0;
    while k < end
        invariant
            k <= end <= v.len(),
            out@ == v@.take(k as int),
        decreases end - k,
    {
        out.push(v[k]);
        k = k + 1;
        assert(out@ =~= v@.take(k as int));
    }
    proof {
        assert(v@.take(v.len() as int) =~= v@);
        let t = v@.take(end as int);
        assert(!(t.len() > 0 && t.last() == '/'));
    }
    string_of(&out)
}

// ── Knowledge services ──────────────────────────────────────────────────────

/// The configured address, or the default when none is configured.
pub open spec fn configured_or(configured: Option<String>, default: Seq<char>) -> Seq<char> {
    match configured {
        Some(s) => s@,
        None => default,
    }
}

/// The knowledge-base query address (`NAUTIVECS_URL`, else the local default).
pub fn nautivecs_query_url(configured: Option<String>) -> (r: String)
    ensures
        r@ == configured_or(configured, "http://127.0.0.1:5003/query"@),
{
    match configured {
        Some(s) => s,
        None => "http://127.0.0.1:5003/query".to_owned(),
    }
}

/// The knowledge-base insert address: the query address without its trailing
/// `/query` and `/search` parts, then `/add`.
pub fn nautivecs_add_url(configured: Option<String>) -> (r: String)
    ensures
        r@ == strip_suffixes(strip_suffixes(configured_or(configured, "http://127.0.0.1:5003/query"@), "/query"@), "/search"@)
            + "/add"@,
{
    let base = nautivecs_query_url(configured);
    let a = strip_suffixes_exec(&chars_of(base.as_str()), &chars_of("/query"));
    let mut b = strip_suffixes_exec(&a, &chars_of("/search"));
    crate::text::append_chars(&mut b, &chars_of("/add"));
    string_of(&b)
}

/// The web-search address (`WSO_URL`, else the local default).
pub fn wso_url(configured: Option<String>) -> (r: String)
    ensures
        r@ == configured_or(configured, "http://127.0.0.1:5010/search"@),
{
    match configured {
        Some(s) => s,
        None => "http://127.0.0.1:5010/search".to_owned(),
    }
}

// ── JSON-RPC methods ────────────────────────────────────────────────────────

/// The JSON-RPC methods a worker answers.
#[derive(Debug, Clone, Copy, PartialEq, Eq, Structural)]
pub enum RpcMethod {
    ToolsList,
    ToolsCall,
    ResourcesList,
    Unknown,
}

/// The method a name calls.
pub fn rpc_method(name: &str) -> (r: RpcMethod)
    ensures
        r == (if name@ == "tools/list"@ {
            RpcMethod::ToolsList
        } else if name@ == "tools/call"@ {
            RpcMethod::ToolsCall
        } else if name@ == "resources/list"@ {
            RpcMethod::ResourcesList
        } else {
            RpcMethod::Unknown
        }),
{
    let n = chars_of(name);
    if crate::text::eq_str(&n, "tools/list") {
        RpcMethod::ToolsList
    } else if crate::text::eq_str(&n, "tools/call") {
        RpcMethod::ToolsCall
    } else if crate::text::eq_str(&n, "resources/list") {
        RpcMethod::ResourcesList
    } else {
        RpcMethod::Unknown
    }
}

/// The reply to a call of a method that does not exist.
pub fn unknown_method_message(name: &str) -> (r: String)
    ensures
        r@ == "Unknown method: "@ + name@ + ". Supported: tools/list, tools/call, resources/list"@,
{
    let mut v = chars_of("Unknown method: ");
    crate::text::append_chars(&mut v, &chars_of(name));
    crate::text::append_chars(&mut v, &chars_of(". Supported: tools/list, tools/call, resources/list"));
    string_of(&v)
}

/// The HTTP status of a JSON-RPC answer: a request without a method is a bad
/// request (400), an unknown method is not allowed (405), any other answer
/// is OK (200).
pub fn rpc_status(method: Option<RpcMethod>) -> (r: u16)
    ensures
        r == (match method {
            None => 400u16,
            Some(RpcMethod::Unknown) => 405u16,
            Some(_) => 200u16,
        }),
{
    match method {
        None => 400,
        Some(RpcMethod::Unknown) => 405,
        Some(_) => 200,
    }
}

// ── Forwarded generation ────────────────────────────────────────────────────

/// The tokens a generation asks for when the request names none.
pub const DEFAULT_MAX_TOKENS: u32 = 512;

pub fn generate_max_tokens(requested: Option<u32>) -> (r: u32)
    ensures
        r == (match requested {
            Some(n) => n,
            None => DEFAULT_MAX_TOKENS,
        }),
{
    match requested {
        Some(n) => n,
        None => DEFAULT_MAX_TOKENS,
    }
}

/// How a forwarded generation went.
#[derive(Debug, Clone, Copy, PartialEq, Eq, Structural)]
pub enum GenerateReply {
    /// The model server answered with a readable body.
    Generated,
    /// Its body could not be read as JSON.
    BodyUnreadable,
    /// It answered with an error status.
    UpstreamError,
    /// It could not be reached.
    Unreachable,
}

/// The HTTP status and `stop` flag a generation is answered with: 200 and
/// going on for a generated text; 500, 502 or 503 and stopping otherwise.
pub fn generate_status(reply: GenerateReply) -> (r: (u16, bool))
    ensures
        r == (match reply {
            GenerateReply::Generated => (200u16, false),
            GenerateReply::BodyUnreadable => (500u16, true),
            GenerateReply::UpstreamError => (502u16, true),
            GenerateReply::Unreachable => (503u16, true),
        }),
{
    match reply {
        GenerateReply::Generated => (200, false),
        GenerateReply::BodyUnreadable => (500, true),
        GenerateReply::UpstreamError => (502, true),
        GenerateReply::Unreachable => (503, true),
    }
}

} // verus!
