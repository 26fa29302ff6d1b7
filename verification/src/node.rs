//! Decisions of a GPU node daemon: its defaults, its state machine, the reading
//! of GPU telemetry and the command line of the inference server it starts.
use vstd::prelude::*;
use crate::text::string_views;
use crate::text::{
    chars_of, lines, lines_exec, split, split_exec, trim, trim_exec, deep, parse_u32_spec, parse_u64_spec,
    parse_u32, parse_u64, string_of, decimal, decimal_exec, append_chars,
};

verus! {

/// Default HTTP port a node listens on.
pub fn default_port() -> (r: u16)
    ensures
        r == 5500,
{
    5500
}

/// Default seconds between heartbeats.
pub fn default_hb() -> (r: u64)
    ensures
        r == 10,
{
    10
}

/// Default number of crash restarts a node allows.
pub fn default_restarts() -> (r: u32)
    ensures
        r == 3,
{
    3
}

/// Default number of model layers offloaded to the GPU (all of them).
pub fn default_layers() -> (r: u32)
    ensures
        r == 999,
{
    999
}

/// Default context size in tokens.
pub fn default_ctx() -> (r: u32)
    ensures
        r == 8192,
{
    8192
}

/// Lifecycle of a node.
#[derive(Debug, Clone)]
pub enum NodeState {
    Init,
    Registering,
    Idle,
    Loading,
    Serving,
    Error(String),
}

pub open spec fn state_name(s: NodeState) -> Seq<char> {
    match s {
        NodeState::Init => "init"@,
        NodeState::Registering => "registering"@,
        NodeState::Idle => "idle"@,
        NodeState::Loading => "loading"@,
        NodeState::Serving => "serving"@,
        NodeState::Error(_) => "error"@,
    }
}

impl NodeState {
    pub fn as_str(&self) -> (r: &'static str)
        ensures
            r@ == state_name(*self),
    {
        match self {
            NodeState::Init => "init",
            NodeState::Registering => "registering",
            NodeState::Idle => "idle",
            NodeState::Loading => "loading",
            NodeState::Serving => "serving",
            NodeState::Error(_) => "error",
        }
    }

    /// A new model may be started only when none is loading or serving.
    pub fn accepts_spawn(&self) -> (r: bool)
        ensures
            r == !(*self is Serving || *self is Loading),
    {
        match self {
            NodeState::Serving | NodeState::Loading => false,
            _ => true,
        }
    }
}

/// What the crash monitor does when the served model exits with a failure:
/// while restarts remain the count goes up and the node returns to idle (ready
/// for a manual restart); after that it enters the error state.
pub fn on_child_crash(restart_count: u32, max_restarts: u32) -> (r: (u32, NodeState))
    ensures
        restart_count < max_restarts ==> r.0 == restart_count + 1 && r.1 is Idle,
        restart_count >= max_restarts ==> r.0 == restart_count && r.1 is Error && r.1->Error_0@
            == "max restarts reached"@,
{
    if restart_count < max_restarts {
        (restart_count + 1, NodeState::Idle)
    } else {
        (restart_count, NodeState::Error(String::from_str("max restarts reached")))
    }
}

/// However many crashes occur, the restart count never passes the limit it started under.
pub proof fn lemma_restart_count_bounded(restart_count: u32, max_restarts: u32)
    requires
        restart_count <= max_restarts,
    ensures
        (if restart_count < max_restarts { restart_count + 1 } else { restart_count as int }) <= max_restarts,
{
}

/// Health as a node reports it: `ok` when the GPU shows memory and the model directory is readable.
pub fn health_status(vram_total_mb: u64, disk_ok: bool) -> (r: &'static str)
    ensures
        r@ == (if vram_total_mb > 0 && disk_ok { "ok"@ } else { "degraded"@ }),
{
    if vram_total_mb > 0 && disk_ok {
        "ok"
    } else {
        "degraded"
    }
}

// ── GPU telemetry ───────────────────────────────────────────────────────────

/// One GPU as `nvidia-smi` reports it.
#[derive(Debug, Clone)]
pub struct GpuEntry {
    pub id: u32,
    pub name: String,
    pub vram_total_mb: u64,
    pub vram_used_mb: u64,
    pub temperature_c: u32,
    pub utilization_pct: u32,
}

/// A GPU entry as plain values.
pub struct GpuView {
    pub id: u32,
    pub name: Seq<char>,
    pub vram_total_mb: u64,
    pub vram_used_mb: u64,
    pub temperature_c: u32,
    pub utilization_pct: u32,
}

pub open spec fn gpu_view(g: GpuEntry) -> GpuView {
    GpuView {
        id: g.id,
        name: g.name@,
        vram_total_mb: g.vram_total_mb,
        vram_used_mb: g.vram_used_mb,
        temperature_c: g.temperature_c,
        utilization_pct: g.utilization_pct,
    }
}

pub open spec fn gpu_views(v: Seq<GpuEntry>) -> Seq<GpuView> {
    v.map_values(|g: GpuEntry| gpu_view(g))
}

pub open spec fn or_zero_u32(o: Option<u32>) -> u32 {
    match o {
        Some(v) => v,
        None => 0,
    }
}

pub open spec fn or_zero_u64(o: Option<u64>) -> u64 {
    match o {
        Some(v) => v,
        None => 0,
    }
}

/// The GPU a CSV line of `index,name,memory.total,memory.used,temperature,utilization`
/// describes: at least six trimmed fields, numbers that do not parse read as 0.
pub open spec fn gpu_of_line(line: Seq<char>) -> Option<GpuView> {
    let p = split(line, ',');
    if p.len() >= 6 {
        Some(
            GpuView {
                id: or_zero_u32(parse_u32_spec(trim(p[0]))),
                name: trim(p[1]),
                vram_total_mb: or_zero_u64(parse_u64_spec(trim(p[2]))),
                vram_used_mb: or_zero_u64(parse_u64_spec(trim(p[3]))),
                temperature_c: or_zero_u32(parse_u32_spec(trim(p[4]))),
                utilization_pct: or_zero_u32(parse_u32_spec(trim(p[5]))),
            },
        )
    } else {
        None
    }
}

pub open spec fn gpus_of_lines(ls: Seq<Seq<char>>) -> Seq<GpuView>
    decreases ls.len(),
{
    if ls.len() == 0 {
        Seq::empty()
    } else {
        let prev = gpus_of_lines(ls.drop_last());
        match gpu_of_line(ls.last()) {
            Some(g) => prev.push(g),
            None => prev,
        }
    }
}

fn gpu_of_line_exec(line: &Vec<char>) -> (r: Option<GpuEntry>)
    ensures
        match r {
            Some(g) => gpu_of_line(line@) == Some(gpu_view(g)),
            None => gpu_of_line(line@) is None,
        },
{
    let p = split_exec(line, ',');
    if p.len() < 6 {
        return None;
    }
    let ghost ps = split(line@, ',');
    assert(forall|k: int| 0 <= k < 6 ==> p@[k]@ == ps[k]);
    let f0 = trim_exec(&p[0]);
    let f1 = trim_exec(&p[1]);
    let f2 = trim_exec(&p[2]);
    let f3 = trim_exec(&p[3]);
    let f4 = trim_exec(&p[4]);
    let f5 = trim_exec(&p[5]);
    let id = match parse_u32(&f0) {
        Some(v) => v,
        None => 0,
    };
    let total = match parse_u64(&f2) {
        Some(v) => v,
        None => 0,
    };
    let used = match parse_u64(&f3) {
        Some(v) => v,
        None => 0,
    };
    let temp = match parse_u32(&f4) {
        Some(v) => v,
        None => 0,
    };
    let util = match parse_u32(&f5) {
        Some(v) => v,
        None => 0,
    };
    Some(
        GpuEntry {
            id,
            name: string_of(&f1),
            vram_total_mb: total,
            vram_used_mb: used,
            temperature_c: temp,
            utilization_pct: util,
        },
    )
}

/// The GPUs listed in `nvidia-smi --format=csv,noheader,nounits` output, in order.
pub fn parse_gpu_csv(s: &str) -> (r: Vec<GpuEntry>)
    ensures
        gpu_views(r@) == gpus_of_lines(lines(s@)),
{
    let text = chars_of(s);
    let ls = lines_exec(&text);
    let ghost lv = lines(s@);
    let mut out: Vec<GpuEntry> = Vec::new();
    let mut i: usize = 0;
    while i < ls.len()
        invariant
            i <= ls.len(),
            deep(ls@) == lv,
            gpu_views(out@) == gpus_of_lines(lv.take(i as int)),
        decreases ls.len() - i,
    {
        assert(lv.take(i + 1).drop_last() =~= lv.take(i as int));
        assert(ls@[i as int]@ == lv[i as int]);
        let ghost before = out@;
        match gpu_of_line_exec(&ls[i]) {
            Some(g) => {
                out.push(g);
                assert(gpu_views(out@) =~= gpu_views(before).push(gpu_view(out@.last())));
            },
            None => {},
        }
        i = i + 1;
    }
    assert(lv.take(ls.len() as int) =~= lv);
    out
}

/// The placeholder entry for the configured GPU: `<backend> (gpu <id>)`, all readings zero.
pub open spec fn placeholder_gpu(gpu_id: u32, backend: Seq<char>) -> GpuView {
    GpuView {
        id: gpu_id,
        name: backend + " (gpu "@ + decimal(gpu_id as nat) + ")"@,
        vram_total_mb: 0,
        vram_used_mb: 0,
        temperature_c: 0,
        utilization_pct: 0,
    }
}

/// The GPU table of a poll: the entries read from the telemetry text when the
/// query succeeded, or the placeholder for the configured GPU when it gave none.
pub open spec fn gpu_table_spec(smi: Option<Seq<char>>, gpu_id: u32, backend: Seq<char>) -> Seq<GpuView> {
    let read = match smi {
        Some(t) => gpus_of_lines(lines(t)),
        None => Seq::empty(),
    };
    if read.len() == 0 {
        seq![placeholder_gpu(gpu_id, backend)]
    } else {
        read
    }
}

/// The GPU table of one poll; `smi` is the telemetry text of a successful query.
pub fn gpu_table(smi: Option<&str>, gpu_id: u32, backend: &str) -> (r: Vec<GpuEntry>)
    ensures
        gpu_views(r@) == gpu_table_spec(
            match smi {
                Some(t) => Some(t@),
                None => None,
            },
            gpu_id,
            backend@,
        ),
        r.len() >= 1,
{
    let mut gpus = match smi {
        Some(t) => parse_gpu_csv(t),
        None => {
            let v: Vec<GpuEntry> = Vec::new();
            assert(gpu_views(v@) =~= Seq::<GpuView>::empty());
            v
        },
    };
    if gpus.len() == 0 {
        let mut name = chars_of(backend);
        append_chars(&mut name, &chars_of(" (gpu "));
        append_chars(&mut name, &decimal_exec(gpu_id as u64));
        append_chars(&mut name, &chars_of(")"));
        gpus.push(
            GpuEntry {
                id: gpu_id,
                name: string_of(&name),
                vram_total_mb: 0,
                vram_used_mb: 0,
                temperature_c: 0,
                utilization_pct: 0,
            },
        );
        assert(gpu_views(gpus@) =~= seq![placeholder_gpu(gpu_id, backend@)]);
    }
    gpus
}

/// Position of the GPU a node manages: the first with the configured id, else the first one.
pub open spec fn primary_index(gpus: Seq<GpuEntry>, gpu_id: u32) -> int {
    if exists|i: int| 0 <= i < gpus.len() && gpus[i].id == gpu_id {
        choose|i: int| 0 <= i < gpus.len() && gpus[i].id == gpu_id && forall|j: int| 0 <= j < i ==> gpus[j].id != gpu_id
    } else {
        0
    }
}

/// Position of the managed GPU in a non-empty table: the first entry with the
/// configured id, else the first entry.
pub fn primary_gpu(gpus: &Vec<GpuEntry>, gpu_id: u32) -> (r: usize)
    requires
        gpus.len() >= 1,
    ensures
        r < gpus.len(),
        (exists|i: int| 0 <= i < gpus.len() && gpus@[i].id == gpu_id) ==> (gpus@[r as int].id == gpu_id
            && forall|j: int| 0 <= j < r ==> gpus@[j].id != gpu_id),
        !(exists|i: int| 0 <= i < gpus.len() && gpus@[i].id == gpu_id) ==> r == 0,
{
    let mut i: usize = 0;
    while i < gpus.len()
        invariant
            i <= gpus.len(),
            forall|j: int| 0 <= j < i ==> gpus@[j].id != gpu_id,
        decreases gpus.len() - i,
    {
        if gpus[i].id == gpu_id {
            return i;
        }
        i = i + 1;
    }
    0
}

// ── Inference server command line ───────────────────────────────────────────

/// The accelerator flags for a backend: `--usecuda`, `--usevulkan <gpu>`, or `--usecpu`.
pub open spec fn backend_flags(backend: Seq<char>, gpu_id: u32) -> Seq<Seq<char>> {
    if backend == "cuda"@ {
        seq!["--usecuda"@]
    } else if backend == "vulkan"@ {
        seq!["--usevulkan"@, decimal(gpu_id as nat)]
    } else {
        seq!["--usecpu"@]
    }
}

/// The arguments the inference server is started with.
pub open spec fn server_args(
    model_path: Seq<char>,
    port: u16,
    backend: Seq<char>,
    gpu_id: u32,
    gpu_layers: u32,
    context_size: u32,
) -> Seq<Seq<char>> {
    seq!["--model"@, model_path, "--port"@, decimal(port as nat)] + backend_flags(backend, gpu_id) + seq![
        "--gpulayers"@,
        decimal(gpu_layers as nat),
        "--contextsize"@,
        decimal(context_size as nat),
        "--quiet"@,
        "--maingpu"@,
        decimal(gpu_id as nat),
    ]
}

fn push_text(out: &mut Vec<String>, v: &Vec<char>)
    ensures
        string_views(final(out)@) == string_views(old(out)@).push(v@),
{
    let s = string_of(v);
    out.push(s);
    assert(string_views(out@) =~= string_views(old(out)@).push(v@));
}

/// The command-line arguments of the inference server for a model.
pub fn server_command_args(
    model_path: &str,
    port: u16,
    backend: &str,
    gpu_id: u32,
    gpu_layers: u32,
    context_size: u32,
) -> (r: Vec<String>)
    ensures
        string_views(r@) == server_args(model_path@, port, backend@, gpu_id, gpu_layers, context_size),
{
    let mut out: Vec<String> = Vec::new();
    push_text(&mut out, &chars_of("--model"));
    push_text(&mut out, &chars_of(model_path));
    push_text(&mut out, &chars_of("--port"));
    push_text(&mut out, &decimal_exec(port as u64));
    let b = chars_of(backend);
    if crate::text::eq_str(&b, "cuda") {
        push_text(&mut out, &chars_of("--usecuda"));
    } else if crate::text::eq_str(&b, "vulkan") {
        push_text(&mut out, &chars_of("--usevulkan"));
        push_text(&mut out, &decimal_exec(gpu_id as u64));
    } else {
        push_text(&mut out, &chars_of("--usecpu"));
    }
    push_text(&mut out, &chars_of("--gpulayers"));
    push_text(&mut out, &decimal_exec(gpu_layers as u64));
    push_text(&mut out, &chars_of("--contextsize"));
    push_text(&mut out, &decimal_exec(context_size as u64));
    push_text(&mut out, &chars_of("--quiet"));
    push_text(&mut out, &chars_of("--maingpu"));
    push_text(&mut out, &decimal_exec(gpu_id as u64));
    assert(string_views(out@) =~= server_args(model_path@, port, backend@, gpu_id, gpu_layers, context_size));
    out
}

} // verus!
