//! What a GPU worker can do, and the reading of `nvidia-smi` text.
use vstd::prelude::*;
use crate::text::string_views;
use crate::text::{contains, split, trim, remove_char, parse_u64_spec, lines, deep, chars_of, contains_str, split_exec, trim_exec, eq_str, remove_char_exec, parse_u64, lines_exec, string_of, words, words_exec};

verus! {

// ── nvidia-smi text ─────────────────────────────────────────────────────────

/// A line that names a GPU model.
pub open spec fn is_gpu_name_line(line: Seq<char>) -> bool {
    contains(line, "Tesla"@) || contains(line, "GeForce"@) || contains(line, "RTX"@)
}

/// The GPU name after reading `line`: the trimmed second `|`-column of a model
/// line, unless it is empty or `--`.
pub open spec fn name_after(line: Seq<char>, name: Seq<char>) -> Seq<char> {
    if is_gpu_name_line(line) {
        let parts = split(line, '|');
        if parts.len() >= 2 {
            let np = trim(parts[1]);
            if np.len() > 0 && np != "--"@ {
                np
            } else {
                name
            }
        } else {
            name
        }
    } else {
        name
    }
}

/// The total MiB, the right side of a `used / total` pair: trimmed, `M` removed, trimmed.
pub open spec fn mib_field(x: Seq<char>) -> Option<u64> {
    parse_u64_spec(trim(remove_char(trim(x), 'M')))
}

/// The used MiB, the left side of a `used / total` pair: the last
/// whitespace-separated number before `M` (the side may begin with the
/// utilisation, as in `0%  3456M`).
pub open spec fn used_field(x: Seq<char>) -> Option<u64> {
    let w = words(remove_char(x, 'M'));
    if w.len() > 0 {
        parse_u64_spec(w.last())
    } else {
        None
    }
}

pub open spec fn saturating_sub(a: u64, b: u64) -> u64 {
    if a >= b {
        (a - b) as u64
    } else {
        0
    }
}

/// `(total, free)` after reading one `|`-column: a column `… used M / total M`
/// whose two numbers parse sets `total` and `free = total - used` (saturating).
pub open spec fn memory_after_column(part: Seq<char>, st: (u64, u64)) -> (u64, u64) {
    let t = trim(part);
    if contains(t, "M /"@) {
        let mp = split(t, '/');
        if mp.len() == 2 {
            match (used_field(mp[0]), mib_field(mp[1])) {
                (Some(used), Some(tot)) => (tot, saturating_sub(tot, used)),
                _ => st,
            }
        } else {
            st
        }
    } else {
        st
    }
}

pub open spec fn memory_after_columns(parts: Seq<Seq<char>>, st: (u64, u64)) -> (u64, u64)
    decreases parts.len(),
{
    if parts.len() == 0 {
        st
    } else {
        memory_after_column(parts.last(), memory_after_columns(parts.drop_last(), st))
    }
}

pub open spec fn memory_after(line: Seq<char>, st: (u64, u64)) -> (u64, u64) {
    if contains(line, "M /"@) && contains(line, "|"@) {
        memory_after_columns(split(line, '|'), st)
    } else {
        st
    }
}

pub open spec fn smi_after_lines(ls: Seq<Seq<char>>) -> (Seq<char>, u64, u64)
    decreases ls.len(),
{
    if ls.len() == 0 {
        ("Unknown"@, 0, 0)
    } else {
        let prev = smi_after_lines(ls.drop_last());
        let m = memory_after(ls.last(), (prev.1, prev.2));
        (name_after(ls.last(), prev.0), m.0, m.1)
    }
}

/// `(gpu name, total MiB, free MiB)` read from `nvidia-smi` text, each taken from
/// the last line that supplies it; `("Unknown", 0, 0)` where none does.
pub open spec fn smi_report(output: Seq<char>) -> (Seq<char>, u64, u64) {
    smi_after_lines(lines(output))
}

fn name_after_exec(line: &Vec<char>, name: Vec<char>) -> (r: Vec<char>)
    ensures
        r@ == name_after(line@, name@),
{
    let named = contains_str(line, "Tesla") || contains_str(line, "GeForce") || contains_str(line, "RTX");
    if !named {
        return name;
    }
    let parts = split_exec(line, '|');
    if parts.len() < 2 {
        return name;
    }
    assert(parts@[1]@ == split(line@, '|')[1]);
    let np = trim_exec(&parts[1]);
    if np.len() > 0 && !eq_str(&np, "--") {
        np
    } else {
        name
    }
}

fn memory_after_column_exec(part: &Vec<char>, st: (u64, u64)) -> (r: (u64, u64))
    ensures
        r == memory_after_column(part@, st),
{
    let t = trim_exec(part);
    if !contains_str(&t, "M /") {
        return st;
    }
    let mp = split_exec(&t, '/');
    if mp.len() != 2 {
        return st;
    }
    assert(mp@[0]@ == split(t@, '/')[0]);
    assert(mp@[1]@ == split(t@, '/')[1]);
    let a = remove_char_exec(&mp[0], 'M');
    let ws = words_exec(&a);
    if ws.len() == 0 {
        return st;
    }
    let last = ws.len() - 1;
    assert(deep(ws@)[last as int] == ws@[last as int]@);
    let b = trim_exec(&mp[1]);
    let b2 = remove_char_exec(&b, 'M');
    let b3 = trim_exec(&b2);
    match parse_u64(&ws[last]) {
        Some(used) => match parse_u64(&b3) {
            Some(tot) => {
                let free = if tot >= used { tot - used } else { 0 };
                (tot, free)
            },
            None => st,
        },
        None => st,
    }
}

fn memory_after_exec(line: &Vec<char>, st: (u64, u64)) -> (r: (u64, u64))
    ensures
        r == memory_after(line@, st),
{
    if !(contains_str(line, "M /") && contains_str(line, "|")) {
        return st;
    }
    let parts = split_exec(line, '|');
    let ghost ps = split(line@, '|');
    let mut cur = st;
    let mut i: usize = 0;
    while i < parts.len()
        invariant
            i <= parts.len(),
            deep(parts@) == ps,
            cur == memory_after_columns(ps.take(i as int), st),
        decreases parts.len() - i,
    {
        assert(ps.take(i + 1).drop_last() =~= ps.take(i as int));
        assert(parts@[i as int]@ == ps[i as int]);
        cur = memory_after_column_exec(&parts[i], cur);
        i = i + 1;
    }
    assert(ps.take(parts.len() as int) =~= ps);
    cur
}

/// Reads `(gpu name, total MiB, free MiB)` from `nvidia-smi` output; a memory
/// line such as `|   0%  3456M / 16276M |` gives total 16276 and free 12820.
pub fn parse_nvidia_smi(output: &str) -> (r: (String, u64, u64))
    ensures
        (r.0@, r.1, r.2) == smi_report(output@),
{
    let text = chars_of(output);
    let ls = lines_exec(&text);
    let ghost lsv = lines(output@);
    let mut name = chars_of("Unknown");
    let mut total: u64 = 0;
    let mut free: u64 = 0;
    let mut i: usize = 0;
    while i < ls.len()
        invariant
            i <= ls.len(),
            deep(ls@) == lsv,
            (name@, total, free) == smi_after_lines(lsv.take(i as int)),
        decreases ls.len() - i,
    {
        assert(lsv.take(i + 1).drop_last() =~= lsv.take(i as int));
        assert(ls@[i as int]@ == lsv[i as int]);
        let line = &ls[i];
        name = name_after_exec(line, name);
        let m = memory_after_exec(line, (total, free));
        total = m.0;
        free = m.1;
        i = i + 1;
    }
    assert(lsv.take(ls.len() as int) =~= lsv);
    (string_of(&name), total, free)
}

// ── Worker service messages ─────────────────────────────────────────────────

/// A completion forwarded from the local inference server.
#[derive(Debug, Clone)]
pub struct GenerateResponse {
    pub text: String,
    pub stop: bool,
    pub generated_tokens: u32,
}

/// The outcome of one tool call.
#[derive(Debug, Clone)]
pub struct ToolResponse {
    pub name: String,
    pub result: String,
}

// ── Worker manifest ─────────────────────────────────────────────────────────

/// What a GPU worker can do and its current state.
#[derive(Debug, Clone)]
pub struct WorkerManifest {
    pub worker_id: String,
    pub hostname: String,
    pub gpu_name: String,
    pub vram_total_mb: u64,
    pub vram_free_mb: u64,
    pub specialty: String,
    pub model_loaded: Option<String>,
    pub tools: Vec<String>,
    pub safe_mode: bool,
    pub status: String,
    pub capabilities: Vec<String>,
}

/// The tools every worker offers.
pub open spec fn worker_tool_names() -> Seq<Seq<char>> {
    seq![
        "read_file"@,
        "write_file"@,
        "run_command"@,
        "think_harder"@,
        "cargo_check"@,
        "remember"@,
        "search_symbols"@,
        "get_symbol"@,
        "get_file_context"@,
        "search_text"@,
        "replace_symbol_body"@,
        "edit_within_symbol"@,
        "insert_symbol"@,
        "delete_symbol"@,
        "batch_edit"@,
        "batch_rename"@,
        "scan_region"@,
        "magnetic_dipole_detect"@,
        "download_satellite_window"@,
        "weather_window"@,
        "detection_health"@,
        "detection_scan"@,
        "detection_poll"@,
        "sat_mission"@,
        "sat_read_mission_report"@,
    ]
}

/// The capabilities every worker advertises.
pub open spec fn worker_capability_names() -> Seq<Seq<char>> {
    seq![
        "rust_code_generation"@,
        "file_operations"@,
        "shell_execution"@,
        "web_search"@,
        "memory_persistence"@,
        "model_inference"@,
    ]
}

/// A fresh hyphenated random identifier: `uuid::Uuid::new_v4().to_string()`.
/// The claim is the documented shape of the text: 36 characters, hyphens at
/// positions 8, 13, 18 and 23, and the version digit `4` at position 14.
#[verifier::external_body]
fn new_worker_id() -> (r: String)
    ensures
        r@.len() == 36,
        r@[8] == '-' && r@[13] == '-' && r@[18] == '-' && r@[23] == '-',
        r@[14] == '4',
{
    uuid::Uuid::new_v4().to_string()
}

/// The host name of this machine (`hostname::get`), `None` when the system
/// reports an error. Nothing is claimed of the name itself.
#[verifier::external_body]
fn local_hostname() -> (r: Option<String>) {
    match hostname::get() {
        Ok(h) => Some(h.to_string_lossy().into_owned()),
        Err(_) => None,
    }
}

impl WorkerManifest {
    /// The manifest of an idle worker with the given identity: unknown GPU, no
    /// VRAM recorded, `general` specialty, no model, the standard tool and
    /// capability lists.
    pub fn with_identity(worker_id: String, hostname: String) -> (r: WorkerManifest)
        ensures
            r.worker_id@ == worker_id@,
            r.hostname@ == hostname@,
            r.gpu_name@ == "Unknown"@,
            r.vram_total_mb == 0,
            r.vram_free_mb == 0,
            r.specialty@ == "general"@,
            r.model_loaded.is_none(),
            string_views(r.tools@) == worker_tool_names(),
            r.safe_mode == false,
            r.status@ == "idle"@,
            string_views(r.capabilities@) == worker_capability_names(),
    {
        let mut tools: Vec<String> = Vec::new();
    tools.push(String::from_str("read_file"));
    tools.push(String::from_str("write_file"));
    tools.push(String::from_str("run_command"));
    tools.push(String::from_str("think_harder"));
    tools.push(String::from_str("cargo_check"));
    tools.push(String::from_str("remember"));
    tools.push(String::from_str("search_symbols"));
    tools.push(String::from_str("get_symbol"));
    tools.push(String::from_str("get_file_context"));
    tools.push(String::from_str("search_text"));
    tools.push(String::from_str("replace_symbol_body"));
    tools.push(String::from_str("edit_within_symbol"));
    tools.push(String::from_str("insert_symbol"));
    tools.push(String::from_str("delete_symbol"));
    tools.push(String::from_str("batch_edit"));
    tools.push(String::from_str("batch_rename"));
    tools.push(String::from_str("scan_region"));
    tools.push(String::from_str("magnetic_dipole_detect"));
    tools.push(String::from_str("download_satellite_window"));
    tools.push(String::from_str("weather_window"));
    tools.push(String::from_str("detection_health"));
    tools.push(String::from_str("detection_scan"));
    tools.push(String::from_str("detection_poll"));
    tools.push(String::from_str("sat_mission"));
    tools.push(String::from_str("sat_read_mission_report"));
        let mut capabilities: Vec<String> = Vec::new();
    capabilities.push(String::from_str("rust_code_generation"));
    capabilities.push(String::from_str("file_operations"));
    capabilities.push(String::from_str("shell_execution"));
    capabilities.push(String::from_str("web_search"));
    capabilities.push(String::from_str("memory_persistence"));
    capabilities.push(String::from_str("model_inference"));
        assert(string_views(tools@) =~= worker_tool_names());
        assert(string_views(capabilities@) =~= worker_capability_names());
        WorkerManifest {
            worker_id,
            hostname,
            gpu_name: String::from_str("Unknown"),
            vram_total_mb: 0,
            vram_free_mb: 0,
            specialty: String::from_str("general"),
            model_loaded: None,
            tools,
            safe_mode: false,
            status: String::from_str("idle"),
            capabilities,
        }
    }
}

impl Default for WorkerManifest {
    /// A manifest for this machine: a fresh random worker id and the host name
    /// (`unknown` where the system gives none).
    fn default() -> (r: Self)
        ensures
            r.worker_id@.len() == 36,
            r.gpu_name@ == "Unknown"@,
            r.vram_total_mb == 0,
            r.vram_free_mb == 0,
            r.specialty@ == "general"@,
            r.model_loaded.is_none(),
            string_views(r.tools@) == worker_tool_names(),
            r.safe_mode == false,
            r.status@ == "idle"@,
            string_views(r.capabilities@) == worker_capability_names(),
    {
        let id = new_worker_id();
        let host = match local_hostname() {
            Some(h) => h,
            None => String::from_str("unknown"),
        };
        WorkerManifest::with_identity(id, host)
    }
}

} // verus!
