//! The three optical wreck-detection concepts, their season windows, and the
//! reflect-mode index used by the concepts' 3×3 gradient stencil.
use vstd::prelude::*;
use crate::text::{chars_of, eq_str, trim, split, deep, split_exec, trim_exec};

verus! {

/// A calendar date as plain numbers.
#[derive(Debug, Clone, Copy, PartialEq, Eq)]
pub struct Ymd {
    pub year: i32,
    pub month: u32,
    pub day: u32,
}

/// An optical detection method.
#[derive(Debug, Clone, Copy, PartialEq, Eq, Structural)]
pub enum Concept {
    /// NIR roughness / current contrast (spring).
    ShadowRoughness,
    /// Mussel clarity anomaly (summer to autumn).
    ZebraClarity,
    /// Post-storm turbidity anchor.
    SedimentPlume,
}

pub open spec fn concept_name(c: Concept) -> Seq<char> {
    match c {
        Concept::ShadowRoughness => "shadow_roughness"@,
        Concept::ZebraClarity => "zebra_clarity"@,
        Concept::SedimentPlume => "sediment_plume"@,
    }
}

/// The concept called `s`, if any.
pub open spec fn concept_named(s: Seq<char>) -> Option<Concept> {
    if s == "shadow_roughness"@ {
        Some(Concept::ShadowRoughness)
    } else if s == "zebra_clarity"@ {
        Some(Concept::ZebraClarity)
    } else if s == "sediment_plume"@ {
        Some(Concept::SedimentPlume)
    } else {
        None
    }
}

/// A concept's name reads back as that concept.
pub proof fn lemma_concept_name_round_trip(c: Concept)
    ensures
        concept_named(concept_name(c)) == Some(c),
{
    reveal_strlit("shadow_roughness");
    reveal_strlit("zebra_clarity");
    reveal_strlit("sediment_plume");
    assert("zebra_clarity"@[0] != "shadow_roughness"@[0]);
    assert("sediment_plume"@[1] != "shadow_roughness"@[1]);
    assert("sediment_plume"@[0] != "zebra_clarity"@[0]);
}

pub open spec fn concept_months(c: Concept) -> Seq<u32> {
    match c {
        Concept::ShadowRoughness => seq![3u32, 4],
        Concept::ZebraClarity => seq![7u32, 8, 9, 10],
        Concept::SedimentPlume => seq![4u32, 5, 6, 7, 8, 9, 10],
    }
}

pub open spec fn concept_bands(c: Concept) -> (Seq<char>, Seq<char>) {
    match c {
        Concept::ShadowRoughness => ("B08"@, "B08"@),
        Concept::ZebraClarity => ("B02"@, "B04"@),
        Concept::SedimentPlume => ("B04"@, "B03"@),
    }
}

pub open spec fn concept_direction(c: Concept) -> Seq<char> {
    match c {
        Concept::ShadowRoughness => "dark"@,
        Concept::ZebraClarity => "bright"@,
        Concept::SedimentPlume => "turbid"@,
    }
}

pub open spec fn all_concepts_spec() -> Seq<Concept> {
    seq![Concept::ShadowRoughness, Concept::ZebraClarity, Concept::SedimentPlume]
}

impl Concept {
    pub fn from_str(s: &str) -> (r: Option<Concept>)
        ensures
            r == concept_named(s@),
    {
        let v = chars_of(s);
        Self::from_chars(&v)
    }

    pub fn from_chars(v: &Vec<char>) -> (r: Option<Concept>)
        ensures
            r == concept_named(v@),
    {
        if eq_str(v, "shadow_roughness") {
            Some(Concept::ShadowRoughness)
        } else if eq_str(v, "zebra_clarity") {
            Some(Concept::ZebraClarity)
        } else if eq_str(v, "sediment_plume") {
            Some(Concept::SedimentPlume)
        } else {
            None
        }
    }

    pub fn name(self) -> (r: &'static str)
        ensures
            r@ == concept_name(self),
    {
        match self {
            Concept::ShadowRoughness => "shadow_roughness",
            Concept::ZebraClarity => "zebra_clarity",
            Concept::SedimentPlume => "sediment_plume",
        }
    }

    /// The calendar months (1–12) in which the concept's signal shows.
    pub fn months(self) -> (r: Vec<u32>)
        ensures
            r@ == concept_months(self),
    {
        let mut v: Vec<u32> = Vec::new();
        match self {
            Concept::ShadowRoughness => {
                v.push(3);
                v.push(4);
            },
            Concept::ZebraClarity => {
                v.push(7);
                v.push(8);
                v.push(9);
                v.push(10);
            },
            Concept::SedimentPlume => {
                v.push(4);
                v.push(5);
                v.push(6);
                v.push(7);
                v.push(8);
                v.push(9);
                v.push(10);
            },
        }
        assert(v@ =~= concept_months(self));
        v
    }

    /// First day of the scene archive searched for the concept.
    pub fn archive_start(self) -> (r: Ymd)
        ensures
            r.year == 2017,
            r.day == 1,
            r.month == concept_months(self)[0],
    {
        match self {
            Concept::ShadowRoughness => Ymd { year: 2017, month: 3, day: 1 },
            Concept::ZebraClarity => Ymd { year: 2017, month: 7, day: 1 },
            Concept::SedimentPlume => Ymd { year: 2017, month: 4, day: 1 },
        }
    }

    /// The two bands a concept's metric reads: NIR alone for roughness, blue
    /// and red for the Secchi clarity proxy, red and green for turbidity.
    pub fn bands(self) -> (r: (&'static str, &'static str))
        ensures
            (r.0@, r.1@) == concept_bands(self),
    {
        match self {
            Concept::ShadowRoughness => ("B08", "B08"),
            Concept::ZebraClarity => ("B02", "B04"),
            Concept::SedimentPlume => ("B04", "B03"),
        }
    }

    /// Expected direction of the signal against its background.
    pub fn signal_direction(self) -> (r: &'static str)
        ensures
            r@ == concept_direction(self),
    {
        match self {
            Concept::ShadowRoughness => "dark",
            Concept::ZebraClarity => "bright",
            Concept::SedimentPlume => "turbid",
        }
    }
}

pub fn all_concepts() -> (r: Vec<Concept>)
    ensures
        r@ == all_concepts_spec(),
{
    let mut v: Vec<Concept> = Vec::new();
    v.push(Concept::ShadowRoughness);
    v.push(Concept::ZebraClarity);
    v.push(Concept::SedimentPlume);
    assert(v@ =~= all_concepts_spec());
    v
}

/// The concepts named by the trimmed comma-separated pieces of a list, unknown names skipped.
pub open spec fn concepts_in(pieces: Seq<Seq<char>>) -> Seq<Concept>
    decreases pieces.len(),
{
    if pieces.len() == 0 {
        Seq::empty()
    } else {
        let prev = concepts_in(pieces.drop_last());
        match concept_named(trim(pieces.last())) {
            Some(c) => prev.push(c),
            None => prev,
        }
    }
}

/// The concepts a knob selects: all of them for `all` or an empty knob, else the
/// named ones in order.
pub open spec fn resolve_concepts_spec(knob: Seq<char>) -> Seq<Concept> {
    if knob == "all"@ || knob.len() == 0 {
        all_concepts_spec()
    } else {
        concepts_in(split(knob, ','))
    }
}

pub fn resolve_concepts(knob: &str) -> (r: Vec<Concept>)
    ensures
        r@ == resolve_concepts_spec(knob@),
{
    let k = chars_of(knob);
    if eq_str(&k, "all") || k.len() == 0 {
        return all_concepts();
    }
    let pieces = split_exec(&k, ',');
    let ghost ps = split(knob@, ',');
    let mut out: Vec<Concept> = Vec::new();
    let mut i: usize = 0;
    while i < pieces.len()
        invariant
            i <= pieces.len(),
            deep(pieces@) == ps,
            out@ == concepts_in(ps.take(i as int)),
        decreases pieces.len() - i,
    {
        assert(ps.take(i + 1).drop_last() =~= ps.take(i as int));
        assert(pieces@[i as int]@ == ps[i as int]);
        let t = trim_exec(&pieces[i]);
        match Concept::from_chars(&t) {
            Some(c) => out.push(c),
            None => {},
        }
        i = i + 1;
    }
    assert(ps.take(pieces.len() as int) =~= ps);
    out
}

// ── Reflect-mode indexing ───────────────────────────────────────────────────

/// The in-range index that `i` maps to when an axis of length `n` is extended
/// by mirroring about its edges (d c b a | a b c d | d c b a).
pub open spec fn reflect_spec(i: int, n: int) -> int {
    let m = i % (2 * n);
    if m >= n {
        2 * n - 1 - m
    } else {
        m
    }
}

/// The reflect-mode index of `i` on an axis of length `n`.
pub fn reflect_index(i: isize, n: usize) -> (r: usize)
    requires
        n >= 1,
        n <= (isize::MAX / 4) as usize,
    ensures
        r == reflect_spec(i as int, n as int),
        r < n,
{
    if n == 1 {
        assert(reflect_spec(i as int, 1) == 0) by {
            assert(0 <= (i as int) % 2 < 2);
        }
        return 0;
    }
    let period: usize = 2 * n;
    let mut k: usize;
    if i >= 0 {
        let a = i as usize;
        k = a % period;
        assert(k == (i as int) % (period as int));
    } else {
        let a: usize = (-(i + 1)) as usize;
        let m = a % period;
        k = period - 1 - m;
        proof {
            lemma_neg_mod(a as int, period as int);
        }
    }
    if k >= n {
        k = period - 1 - k;
    }
    k
}

proof fn lemma_neg_mod(a: int, p: int)
    requires
        a >= 0,
        p > 0,
    ensures
        (-1 - a) % p == p - 1 - a % p,
{
    let m = a % p;
    vstd::arithmetic::div_mod::lemma_fundamental_div_mod(a, p);
    vstd::arithmetic::div_mod::lemma_mod_bound(a, p);
    let q = a / p;
    assert(-1 - a == p * (-q - 1) + (p - 1 - m)) by (nonlinear_arith)
        requires
            a == p * q + m,
    ;
    vstd::arithmetic::div_mod::lemma_mod_add_multiples_vanish(p - 1 - m, p);
    vstd::arithmetic::div_mod::lemma_mod_multiples_vanish(-q - 1, p - 1 - m, p);
    vstd::arithmetic::div_mod::lemma_small_mod((p - 1 - m) as nat, p as nat);
}

/// Reflect-mode indexing leaves in-range indices where they are.
pub proof fn lemma_reflect_identity_in_range(i: int, n: int)
    requires
        n >= 1,
        0 <= i < n,
    ensures
        reflect_spec(i, n) == i,
{
    vstd::arithmetic::div_mod::lemma_small_mod(i as nat, (2 * n) as nat);
}

/// Reflect-mode indexing mirrors about the lower edge: `-1-i` reads the same place as `i`.
pub proof fn lemma_reflect_mirror(i: int, n: int)
    requires
        n >= 1,
    ensures
        reflect_spec(-1 - i, n) == reflect_spec(i, n),
{
    let p = 2 * n;
    if i >= 0 {
        lemma_neg_mod(i, p);
    } else {
        lemma_neg_mod(-1 - i, p);
    }
}

/// Reflect-mode indexing repeats with period `2n`.
pub proof fn lemma_reflect_periodic(i: int, n: int)
    requires
        n >= 1,
    ensures
        reflect_spec(i + 2 * n, n) == reflect_spec(i, n),
{
    vstd::arithmetic::div_mod::lemma_mod_add_multiples_vanish(i, 2 * n);
}

} // verus!
