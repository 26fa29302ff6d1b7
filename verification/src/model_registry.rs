//! The GGUF models a worker can serve: what a file name says of a model, how
//! much VRAM it needs, the order models are listed in, and which one a task
//! gets.
use vstd::prelude::*;
use crate::text::{chars_of, contains, contains_str, lowercase_of, to_lowercase};

verus! {

/// A discovered model. `size_mb` is its size in whole MiB.
#[derive(Debug, Clone)]
pub struct ModelEntry {
    pub path: String,
    pub size_mb: u64,
    pub specialty: String,
    pub quantization: String,
    pub estimated_vram_mb: u64,
}

/// The specialty a (lower-cased) file name suggests.
pub open spec fn specialty_of(lower: Seq<char>) -> Seq<char> {
    if contains(lower, "coder"@) || contains(lower, "dev"@) || contains(lower, "rust"@) {
        "coder"@
    } else if contains(lower, "r1"@) || contains(lower, "deepseek"@) || contains(lower, "reasoner"@) {
        "thinker"@
    } else {
        "general"@
    }
}

/// The quantization a (lower-cased) file name names.
pub open spec fn quantization_of(lower: Seq<char>) -> Seq<char> {
    if contains(lower, "q2"@) {
        "Q2_K"@
    } else if contains(lower, "q3"@) {
        "Q3_K"@
    } else if contains(lower, "q4"@) {
        "Q4_K_M"@
    } else if contains(lower, "q5"@) {
        "Q5_K_M"@
    } else if contains(lower, "q6"@) {
        "Q6_K"@
    } else if contains(lower, "q8"@) {
        "Q8_0"@
    } else if contains(lower, "f16"@) || contains(lower, "fp16"@) {
        "F16"@
    } else if contains(lower, "bf16"@) {
        "BF16"@
    } else {
        "unknown"@
    }
}

/// VRAM per MiB of weights: one for the quantizations up to 6 bits, two for
/// 8-bit, half precision and anything unknown.
pub open spec fn vram_factor(quantization: Seq<char>) -> u64 {
    if quantization == "Q2_K"@ || quantization == "Q3_K"@ || quantization == "Q4_K_M"@ || quantization == "Q4_0"@
        || quantization == "Q5_K_M"@ || quantization == "Q6_K"@ {
        1
    } else {
        2
    }
}

/// `a * b`, held at `u64::MAX`.
pub open spec fn saturating_mul(a: u64, b: u64) -> u64 {
    if a * b > u64::MAX {
        u64::MAX
    } else {
        (a * b) as u64
    }
}

/// The bit width a quantization name states: the digit after a leading `Q`
/// (`Q4_K_M` is 4 bits), 16 for the half-precision formats `F16` and `BF16`,
/// none for a name that states no width.
pub open spec fn quantization_bits(q: Seq<char>) -> Option<int> {
    if q.len() >= 2 && q[0] == 'Q' && 48 <= q[1] as int <= 57 {
        Some(q[1] as int - 48)
    } else if q == "F16"@ || q == "BF16"@ {
        Some(16)
    } else {
        None
    }
}

/// The VRAM a model of `size_mb` MiB needs by the width of its weights: its
/// size where the quantization states at most 6 bits, twice its size (held at
/// `u64::MAX`) for wider or unstated widths.
pub open spec fn vram_by_bits(size_mb: u64, q: Seq<char>) -> u64 {
    if quantization_bits(q) matches Some(b) && b <= 6 {
        size_mb
    } else if 2 * size_mb <= u64::MAX {
        (2 * size_mb) as u64
    } else {
        u64::MAX
    }
}

/// Whatever quantization a file name names, and for `Q4_0` too, the VRAM
/// estimate goes by the bit width the quantization states: a model quantized
/// to 6 bits or fewer needs its own size, any other twice that.
pub proof fn lemma_vram_estimate_by_bits(lower: Seq<char>, size_mb: u64)
    ensures
        saturating_mul(size_mb, vram_factor(quantization_of(lower))) == vram_by_bits(size_mb, quantization_of(lower)),
        saturating_mul(size_mb, vram_factor("Q4_0"@)) == vram_by_bits(size_mb, "Q4_0"@),
{
    reveal_strlit("Q2_K");
    reveal_strlit("Q3_K");
    reveal_strlit("Q4_K_M");
    reveal_strlit("Q4_0");
    reveal_strlit("Q5_K_M");
    reveal_strlit("Q6_K");
    reveal_strlit("Q8_0");
    reveal_strlit("F16");
    reveal_strlit("BF16");
    reveal_strlit("unknown");
    assert("Q2_K"@.len() == 4);
    assert("Q3_K"@.len() == 4);
    assert("Q4_K_M"@.len() == 6);
    assert("Q4_0"@.len() == 4);
    assert("Q5_K_M"@.len() == 6);
    assert("Q6_K"@.len() == 4);
    assert("Q8_0"@.len() == 4);
    assert("F16"@.len() == 3);
    assert("BF16"@.len() == 4);
    assert("unknown"@.len() == 7);
    assert("Q3_K"@[1] != "Q2_K"@[1]);
    assert("Q4_0"@[1] != "Q2_K"@[1]);
    assert("Q4_0"@[1] != "Q3_K"@[1]);
    assert("Q6_K"@[1] != "Q2_K"@[1]);
    assert("Q6_K"@[1] != "Q3_K"@[1]);
    assert("Q6_K"@[1] != "Q4_0"@[1]);
    assert("Q8_0"@[1] != "Q2_K"@[1]);
    assert("Q8_0"@[1] != "Q3_K"@[1]);
    assert("Q8_0"@[1] != "Q4_0"@[1]);
    assert("Q8_0"@[1] != "Q6_K"@[1]);
    assert("BF16"@[0] != "Q2_K"@[0]);
    assert("BF16"@[0] != "Q3_K"@[0]);
    assert("BF16"@[0] != "Q4_0"@[0]);
    assert("BF16"@[0] != "Q6_K"@[0]);
    assert("Q5_K_M"@[1] != "Q4_K_M"@[1]);
}

impl ModelEntry {
    /// The specialty a file name suggests: `coder` for coder/dev/rust models,
    /// `thinker` for r1/deepseek/reasoner models, `general` otherwise.
    pub fn infer_specialty(filename: &str) -> (r: &'static str)
        ensures
            r@ == specialty_of(lowercase_of(filename@)),
    {
        let lower = to_lowercase(filename);
        if contains_str(&lower, "coder") || contains_str(&lower, "dev") || contains_str(&lower, "rust") {
            return "coder";
        }
        if contains_str(&lower, "r1") || contains_str(&lower, "deepseek") || contains_str(&lower, "reasoner") {
            return "thinker";
        }
        "general"
    }

    /// The quantization a file name names (first match of q2, q3, q4, q5, q6,
    /// q8, f16/fp16, bf16), `unknown` otherwise.
    pub fn infer_quantization(filename: &str) -> (r: String)
        ensures
            r@ == quantization_of(lowercase_of(filename@)),
    {
        let lower = to_lowercase(filename);
        let q = if contains_str(&lower, "q2") {
            "Q2_K"
        } else if contains_str(&lower, "q3") {
            "Q3_K"
        } else if contains_str(&lower, "q4") {
            "Q4_K_M"
        } else if contains_str(&lower, "q5") {
            "Q5_K_M"
        } else if contains_str(&lower, "q6") {
            "Q6_K"
        } else if contains_str(&lower, "q8") {
            "Q8_0"
        } else if contains_str(&lower, "f16") || contains_str(&lower, "fp16") {
            "F16"
        } else if contains_str(&lower, "bf16") {
            "BF16"
        } else {
            "unknown"
        };
        q.to_owned()
    }

    /// The VRAM a model of `size_mb` whole MiB needs under a quantization.
    pub fn estimate_vram_mb(size_mb: u64, quantization: &str) -> (r: u64)
        ensures
            r == saturating_mul(size_mb, vram_factor(quantization@)),
    {
        let q = chars_of(quantization);
        let factor: u64 = if crate::text::eq_str(&q, "Q2_K") || crate::text::eq_str(&q, "Q3_K") || crate::text::eq_str(
            &q,
            "Q4_K_M",
        ) || crate::text::eq_str(&q, "Q4_0") || crate::text::eq_str(&q, "Q5_K_M") || crate::text::eq_str(&q, "Q6_K") {
            1
        } else {
            2
        };
        match size_mb.checked_mul(factor) {
            Some(v) => v,
            None => u64::MAX,
        }
    }

    /// The entry of the model at `path` whose file is `filename` and holds
    /// `size_mb` whole MiB.
    pub fn describe(path: String, filename: &str, size_mb: u64) -> (r: ModelEntry)
        ensures
            r.path == path,
            r.size_mb == size_mb,
            r.specialty@ == specialty_of(lowercase_of(filename@)),
            r.quantization@ == quantization_of(lowercase_of(filename@)),
            r.estimated_vram_mb == saturating_mul(size_mb, vram_factor(quantization_of(lowercase_of(filename@)))),
    {
        let quant = ModelEntry::infer_quantization(filename);
        let vram = ModelEntry::estimate_vram_mb(size_mb, quant.as_str());
        ModelEntry {
            path,
            size_mb,
            specialty: ModelEntry::infer_specialty(filename).to_owned(),
            quantization: quant,
            estimated_vram_mb: vram,
        }
    }
}

// ── Listing order ───────────────────────────────────────────────────────────

/// Entry `a` comes before entry `b`: smaller VRAM first, ties in discovery order.
pub open spec fn listed_before(vram: Seq<u64>, a: usize, b: usize) -> bool {
    vram[a as int] < vram[b as int] || (vram[a as int] == vram[b as int] && a < b)
}

/// `order` lists every index below `n` exactly once.
pub open spec fn is_permutation(order: Seq<usize>, n: nat) -> bool {
    &&& order.len() == n
    &&& order.no_duplicates()
    &&& forall|t: int| 0 <= t < order.len() ==> #[trigger] order[t] < n
}

/// The order models are listed in: by estimated VRAM, equal ones in the
/// order they were found (a stable sort by VRAM).
pub fn vram_order(vram: &Vec<u64>) -> (order: Vec<usize>)
    ensures
        is_permutation(order@, vram.len() as nat),
        forall|a: int, b: int| 0 <= a < b < order.len() ==> listed_before(vram@, #[trigger] order@[a], #[trigger] order@[b]),
{
    let mut order: Vec<usize> = Vec::new();
    let mut i: usize = 0;
    while i < vram.len()
        invariant
            i <= vram.len(),
            order.len() == i,
            order@.no_duplicates(),
            forall|t: int| 0 <= t < order.len() ==> #[trigger] order@[t] < i,
            forall|a: int, b: int| 0 <= a < b < order.len() ==> listed_before(vram@, #[trigger] order@[a], #[trigger] order@[b]),
        decreases vram.len() - i,
    {
        let key = vram[i];
        let mut p: usize = order.len();
        while p > 0 && vram[order[p - 1]] > key
            invariant
                p <= order.len(),
                order.len() == i,
                i < vram.len(),
                forall|t: int| 0 <= t < order.len() ==> #[trigger] order@[t] < i,
                forall|q: int| p <= q < order.len() ==> vram@[#[trigger] order@[q] as int] > key,
            decreases p,
        {
            p = p - 1;
        }
        let ghost before = order@;
        order.insert(p, i);
        proof {
            assert(vram@[i as int] == key);
            assert forall|a: int, b: int| 0 <= a < b < order.len() implies listed_before(vram@, #[trigger] order@[a], #[trigger] order@[b]) by {
                if b < p {
                    assert(order@[a] == before[a] && order@[b] == before[b]);
                } else if b == p {
                    assert(order@[a] == before[a]);
                    assert(before[p - 1] == before[(p - 1) as int]);
                    assert(vram@[before[(p - 1) as int] as int] <= key);
                    if a < p - 1 {
                        assert(listed_before(vram@, before[a], before[(p - 1) as int]));
                    }
                    assert(before[a] < i);
                } else if a == p {
                    assert(order@[b] == before[b - 1]);
                    assert(vram@[before[b - 1] as int] > key);
                } else if a < p {
                    assert(order@[a] == before[a] && order@[b] == before[b - 1]);
                } else {
                    assert(order@[a] == before[a - 1] && order@[b] == before[b - 1]);
                }
            }
            assert forall|x: int, y: int| 0 <= x < y < order.len() implies order@[x] != order@[y] by {
                if x < p && y < p {
                    assert(order@[x] == before[x] && order@[y] == before[y]);
                } else if x < p && y == p {
                    assert(before[x] < i);
                } else if x < p {
                    assert(order@[x] == before[x] && order@[y] == before[y - 1]);
                } else if x == p {
                    assert(before[y - 1] < i);
                } else {
                    assert(order@[x] == before[x - 1] && order@[y] == before[y - 1]);
                }
            }
            assert forall|t: int| 0 <= t < order.len() implies #[trigger] order@[t] < i + 1 by {
                if t < p {
                    assert(order@[t] == before[t]);
                } else if t > p {
                    assert(order@[t] == before[t - 1]);
                }
            }
        }
        i = i + 1;
    }
    order
}

// ── Choosing a model ────────────────────────────────────────────────────────

/// The discovered models, in listing order.
#[derive(Debug, Clone)]
pub struct ModelRegistry {
    pub models: Vec<ModelEntry>,
}

/// Model `m` fits the VRAM and serves the task.
pub open spec fn serves(m: ModelEntry, task_type: Seq<char>, available_vram_mb: u64) -> bool {
    m.estimated_vram_mb <= available_vram_mb && m.specialty@ == task_type
}

/// The first model that fits the VRAM and has the task's specialty.
pub fn select_model_for_task(task_type: &str, available_vram_mb: u64, registry: &Vec<ModelEntry>) -> (r: Option<usize>)
    ensures
        match r {
            Some(k) => k < registry.len() && serves(registry@[k as int], task_type@, available_vram_mb) && forall|j: int|
                0 <= j < k ==> !serves(#[trigger] registry@[j], task_type@, available_vram_mb),
            None => forall|j: int| 0 <= j < registry.len() ==> !serves(#[trigger] registry@[j], task_type@, available_vram_mb),
        },
{
    let task = chars_of(task_type);
    let mut j: usize = 0;
    while j < registry.len()
        invariant
            j <= registry.len(),
            task@ == task_type@,
            forall|q: int| 0 <= q < j ==> !serves(#[trigger] registry@[q], task_type@, available_vram_mb),
        decreases registry.len() - j,
    {
        let m = &registry[j];
        if m.estimated_vram_mb <= available_vram_mb {
            let sp = chars_of(m.specialty.as_str());
            if crate::text::chars_eq(&sp, &task) {
                return Some(j);
            }
        }
        j = j + 1;
    }
    None
}

impl ModelRegistry {
    /// The first listed model that fits the VRAM and has the task's specialty.
    pub fn select_model_for_task(&self, task_type: &str, available_vram_mb: u64) -> (r: Option<&ModelEntry>)
        ensures
            match r {
                Some(m) => exists|k: int|
                    0 <= k < self.models.len() && self.models@[k] == *m && serves(*m, task_type@, available_vram_mb)
                        && forall|j: int| 0 <= j < k ==> !serves(#[trigger] self.models@[j], task_type@, available_vram_mb),
                None => forall|j: int|
                    0 <= j < self.models.len() ==> !serves(#[trigger] self.models@[j], task_type@, available_vram_mb),
            },
    {
        match select_model_for_task(task_type, available_vram_mb, &self.models) {
            Some(k) => Some(&self.models[k]),
            None => None,
        }
    }
}

} // verus!
