//! The order in which text sorts: lexicographic by character, a proper prefix
//! first. This is the order of `str` and `String` (UTF-8 keeps code-point
//! order), used wherever the pipeline lists things by name.
use vstd::prelude::*;
use crate::text::string_views;

verus! {

/// `a` sorts strictly before `b`.
pub open spec fn text_lt(a: Seq<char>, b: Seq<char>) -> bool
    decreases a.len(),
{
    if b.len() == 0 {
        false
    } else if a.len() == 0 {
        true
    } else if a[0] != b[0] {
        a[0] < b[0]
    } else {
        text_lt(a.drop_first(), b.drop_first())
    }
}

/// Nothing sorts before itself.
pub proof fn lemma_text_lt_irreflexive(a: Seq<char>)
    ensures
        !text_lt(a, a),
    decreases a.len(),
{
    if a.len() > 0 {
        lemma_text_lt_irreflexive(a.drop_first());
    }
}

/// Of two different texts, one sorts before the other, and not both ways.
pub proof fn lemma_text_lt_total(a: Seq<char>, b: Seq<char>)
    ensures
        a != b ==> (text_lt(a, b) || text_lt(b, a)),
        !(text_lt(a, b) && text_lt(b, a)),
    decreases a.len(),
{
    if a.len() > 0 && b.len() > 0 && a[0] == b[0] {
        lemma_text_lt_total(a.drop_first(), b.drop_first());
        if a.drop_first() == b.drop_first() {
            assert(a =~= seq![a[0]] + a.drop_first());
            assert(b =~= seq![b[0]] + b.drop_first());
        }
    } else if a.len() == 0 && b.len() == 0 {
        assert(a =~= b);
    }
}

/// The order is transitive.
pub proof fn lemma_text_lt_transitive(a: Seq<char>, b: Seq<char>, c: Seq<char>)
    requires
        text_lt(a, b),
        text_lt(b, c),
    ensures
        text_lt(a, c),
    decreases a.len(),
{
    if a.len() > 0 && a[0] == b[0] && b[0] == c[0] {
        lemma_text_lt_transitive(a.drop_first(), b.drop_first(), c.drop_first());
    }
}

/// Whether `a` sorts strictly before `b`.
pub fn chars_less(a: &Vec<char>, b: &Vec<char>) -> (r: bool)
    ensures
        r == text_lt(a@, b@),
{
    let mut i: usize = 0;
    assert(a@.skip(0) =~= a@ && b@.skip(0) =~= b@);
    while i < a.len() && i < b.len() && a[i] == b[i]
        invariant
            i <= a.len(),
            i <= b.len(),
            text_lt(a@, b@) == text_lt(a@.skip(i as int), b@.skip(i as int)),
        decreases a.len() - i,
    {
        assert(a@.skip(i as int).drop_first() =~= a@.skip(i + 1));
        assert(b@.skip(i as int).drop_first() =~= b@.skip(i + 1));
        i = i + 1;
    }
    if i < a.len() && i < b.len() {
        a[i] < b[i]
    } else {
        i < b.len()
    }
}

// ── Listing by name ─────────────────────────────────────────────────────────

/// Entry `x` is listed before entry `y`: its name sorts first, equal names
/// in their original order (a stable sort by name).
pub open spec fn name_before(names: Seq<Seq<char>>, x: usize, y: usize) -> bool {
    text_lt(names[x as int], names[y as int]) || (names[x as int] == names[y as int] && x < y)
}

pub proof fn lemma_name_before_transitive(names: Seq<Seq<char>>, x: usize, y: usize, z: usize)
    requires
        name_before(names, x, y),
        name_before(names, y, z),
    ensures
        name_before(names, x, z),
{
    if text_lt(names[x as int], names[y as int]) && text_lt(names[y as int], names[z as int]) {
        lemma_text_lt_transitive(names[x as int], names[y as int], names[z as int]);
    }
}


/// `order` lists every index below `n` exactly once.
pub open spec fn lists_each_once(order: Seq<usize>, n: nat) -> bool {
    &&& order.len() == n
    &&& order.no_duplicates()
    &&& forall|t: int| 0 <= t < order.len() ==> #[trigger] order[t] < n
    &&& forall|x: usize| x < n ==> #[trigger] order.contains(x)
}

/// The indices of `names` in listing order: by name, equal names in their
/// original order.
pub fn name_order(names: &Vec<String>) -> (order: Vec<usize>)
    ensures
        lists_each_once(order@, names.len() as nat),
        forall|a: int, b: int|
            0 <= a < b < order.len() ==> name_before(string_views(names@), #[trigger] order@[a], #[trigger] order@[b]),
{
    let ghost nv = string_views(names@);
    let mut order: Vec<usize> = Vec::new();
    let mut i: usize = 0;
    while i < names.len()
        invariant
            i <= names.len(),
            nv == string_views(names@),
            nv.len() == names.len(),
            order.len() == i,
            order@.no_duplicates(),
            forall|t: int| 0 <= t < order.len() ==> #[trigger] order@[t] < i,
            forall|x: usize| x < i ==> #[trigger] order@.contains(x),
            forall|a: int, b: int| 0 <= a < b < order.len() ==> name_before(nv, #[trigger] order@[a], #[trigger] order@[b]),
        decreases names.len() - i,
    {
        let key = names[i].as_str();
        let mut p: usize = order.len();
        while p > 0 && text_less(key, names[order[p - 1]].as_str())
            invariant
                p <= order.len(),
                order.len() == i,
                i < names.len(),
                nv == string_views(names@),
                nv.len() == names.len(),
                key@ == nv[i as int],
                forall|t: int| 0 <= t < order.len() ==> #[trigger] order@[t] < i,
                forall|q: int| p <= q < order.len() ==> text_lt(nv[i as int], nv[#[trigger] order@[q] as int]),
            decreases p,
        {
            p = p - 1;
        }
        let ghost before = order@;
        order.insert(p, i);
        proof {
            assert forall|a: int, b: int| 0 <= a < b < order.len() implies name_before(nv, #[trigger] order@[a], #[trigger] order@[b]) by {
                if b < p {
                    assert(order@[a] == before[a] && order@[b] == before[b]);
                } else if b == p {
                    assert(order@[a] == before[a]);
                    let last = before[(p - 1) as int];
                    assert(!text_lt(nv[i as int], nv[last as int]));
                    lemma_text_lt_total(nv[i as int], nv[last as int]);
                    assert(name_before(nv, last, i));
                    if a < p - 1 {
                        assert(name_before(nv, before[a], last));
                        lemma_name_before_transitive(nv, before[a], last, i);
                    }
                } else if a == p {
                    assert(order@[b] == before[b - 1]);
                    assert(text_lt(nv[i as int], nv[before[b - 1] as int]));
                } else if a < p {
                    assert(order@[a] == before[a] && order@[b] == before[b - 1]);
                } else {
                    assert(order@[a] == before[a - 1] && order@[b] == before[b - 1]);
                }
            }
            assert forall|x: int, y: int| 0 <= x < y < order.len() implies order@[x] != order@[y] by {
                if x < p && y < p {
                    assert(order@[x] == before[x] && order@[y] == before[y]);
                } else if x < p && y == p {
                    assert(before[x] < i);
                } else if x < p {
                    assert(order@[x] == before[x] && order@[y] == before[y - 1]);
                } else if x == p {
                    assert(before[y - 1] < i);
                } else {
                    assert(order@[x] == before[x - 1] && order@[y] == before[y - 1]);
                }
            }
            assert forall|t: int| 0 <= t < order.len() implies #[trigger] order@[t] < i + 1 by {
                if t < p {
                    assert(order@[t] == before[t]);
                } else if t > p {
                    assert(order@[t] == before[t - 1]);
                }
            }
            assert forall|x: usize| x < i + 1 implies #[trigger] order@.contains(x) by {
                if x == i {
                    assert(order@[p as int] == i);
                } else {
                    assert(before.contains(x));
                    let t = choose|t: int| 0 <= t < before.len() && before[t] == x;
                    if t < p {
                        assert(order@[t] == x);
                    } else {
                        assert(order@[t + 1] == x);
                    }
                }
            }
        }
        i = i + 1;
    }
    order
}

/// Whether text `a` sorts strictly before text `b`.
pub fn text_less(a: &str, b: &str) -> (r: bool)
    ensures
        r == text_lt(a@, b@),
{
    let av = crate::text::chars_of(a);
    let bv = crate::text::chars_of(b);
    chars_less(&av, &bv)
}

/// The first `limit` entries in listing order (see `name_order`): every entry
/// left out is listed after every entry kept.
pub fn first_by_name(names: &Vec<String>, limit: usize) -> (r: Vec<usize>)
    ensures
        r.len() == (if limit < names.len() { limit } else { names.len() as usize }),
        r@.no_duplicates(),
        forall|t: int| 0 <= t < r.len() ==> #[trigger] r@[t] < names.len(),
        forall|a: int, b: int| 0 <= a < b < r.len() ==> name_before(string_views(names@), #[trigger] r@[a], #[trigger] r@[b]),
        forall|a: int, x: usize|
            0 <= a < r.len() && x < names.len() && !r@.contains(x) ==> #[trigger] name_before(string_views(names@), r@[a], x),
{
    let mut order = name_order(names);
    let ghost full = order@;
    if limit < order.len() {
        order.truncate(limit);
    }
    proof {
        assert(order@ =~= full.take(order.len() as int));
        assert forall|a: int, x: usize|
            0 <= a < order.len() && x < names.len() && !order@.contains(x) implies #[trigger] name_before(string_views(names@), order@[a], x) by {
            assert(full.contains(x));
            let b = choose|b: int| 0 <= b < full.len() && full[b] == x;
            if b < order.len() {
                assert(order@[b] == x);
            }
            assert(full[a] == order@[a]);
        }
        assert forall|x: int, y: int| 0 <= x < y < order.len() implies order@[x] != order@[y] by {
            assert(full[x] == order@[x] && full[y] == order@[y]);
        }
    }
    order
}

// ── Sorted sets of text ─────────────────────────────────────────────────────

/// The texts of `v` sort strictly increasing: a sorted set.
pub open spec fn sorted_texts(v: Seq<Seq<char>>) -> bool {
    forall|a: int, b: int| 0 <= a < b < v.len() ==> text_lt(#[trigger] v[a], #[trigger] v[b])
}

/// Whether `t` is one of the texts of `v`.
pub fn holds_text(v: &Vec<String>, t: &str) -> (r: bool)
    ensures
        r == string_views(v@).contains(t@),
{
    let want = crate::text::chars_of(t);
    let mut k: usize = 0;
    while k < v.len()
        invariant
            k <= v.len(),
            want@ == t@,
            forall|u: int| 0 <= u < k ==> #[trigger] v@[u]@ != t@,
        decreases v.len() - k,
    {
        let have = crate::text::chars_of(v[k].as_str());
        if crate::text::chars_eq(&have, &want) {
            assert(string_views(v@)[k as int] == t@);
            return true;
        }
        k = k + 1;
    }
    proof {
        if string_views(v@).contains(t@) {
            let u = choose|u: int| 0 <= u < string_views(v@).len() && string_views(v@)[u] == t@;
            assert(v@[u]@ == t@);
        }
    }
    false
}

/// Adds `t`, not yet in the sorted set `v`, keeping it sorted.
pub fn insert_text_sorted(v: &mut Vec<String>, t: String)
    requires
        sorted_texts(string_views(old(v)@)),
        !string_views(old(v)@).contains(t@),
    ensures
        sorted_texts(string_views(final(v)@)),
        forall|x: Seq<char>| string_views(final(v)@).contains(x) <==> (string_views(old(v)@).contains(x) || x == t@),
{
    let mut p: usize = v.len();
    while p > 0 && text_less(t.as_str(), v[p - 1].as_str())
        invariant
            p <= v.len(),
            v@ == old(v)@,
            forall|q: int| p <= q < v.len() ==> text_lt(t@, #[trigger] v@[q]@),
        decreases p,
    {
        p = p - 1;
    }
    let ghost before = string_views(v@);
    let ghost tv = t@;
    v.insert(p, t);
    proof {
        let after = string_views(v@);
        assert(after =~= before.insert(p as int, tv));
        assert forall|a: int, b: int| 0 <= a < b < after.len() implies text_lt(#[trigger] after[a], #[trigger] after[b]) by {
            if b < p {
                assert(after[a] == before[a] && after[b] == before[b]);
            } else if b == p {
                assert(after[a] == before[a]);
                let last = before[(p - 1) as int];
                assert(last == v@[(p - 1) as int]@);
                assert(!text_lt(tv, last));
                assert(before.contains(last));
                assert(last != tv);
                lemma_text_lt_total(tv, last);
                if a < p - 1 {
                    lemma_text_lt_transitive(before[a], last, tv);
                }
            } else if a == p {
                assert(after[b] == before[b - 1]);
                assert(before[b - 1] == v@[b]@);
            } else if a < p {
                assert(after[a] == before[a] && after[b] == before[b - 1]);
            } else {
                assert(after[a] == before[a - 1] && after[b] == before[b - 1]);
            }
        }
        assert forall|x: Seq<char>| after.contains(x) <==> (before.contains(x) || x == tv) by {
            if after.contains(x) {
                let u = choose|u: int| 0 <= u < after.len() && after[u] == x;
                if u < p {
                    assert(before[u] == x);
                } else if u > p {
                    assert(before[u - 1] == x);
                }
            }
            if before.contains(x) {
                let u = choose|u: int| 0 <= u < before.len() && before[u] == x;
                if u < p {
                    assert(after[u] == x);
                } else {
                    assert(after[u + 1] == x);
                }
            }
            if x == tv {
                assert(after[p as int] == x);
            }
        }
    }
}

/// The distinct texts of `v`, sorted (a sort followed by removing repeats).
pub fn sorted_distinct(v: &Vec<String>) -> (r: Vec<String>)
    ensures
        sorted_texts(string_views(r@)),
        forall|x: Seq<char>| string_views(r@).contains(x) <==> string_views(v@).contains(x),
{
    let mut out: Vec<String> = Vec::new();
    let mut i: usize = 0;
    while i < v.len()
        invariant
            i <= v.len(),
            sorted_texts(string_views(out@)),
            forall|x: Seq<char>| string_views(out@).contains(x) <==> string_views(v@).take(i as int).contains(x),
        decreases v.len() - i,
    {
        let ghost pre = string_views(v@).take(i as int);
        let ghost post = string_views(v@).take(i + 1);
        proof {
            assert(post =~= pre.push(v@[i as int]@));
        }
        let ghost before_out = string_views(out@);
        let ghost item = v@[i as int]@;
        if !holds_text(&out, v[i].as_str()) {
            let t = string_of_str(v[i].as_str());
            insert_text_sorted(&mut out, t);
        }
        assert(forall|x: Seq<char>| string_views(out@).contains(x) <==> (before_out.contains(x) || x == item));
        proof {
            assert forall|x: Seq<char>| string_views(out@).contains(x) <==> post.contains(x) by {
                assert(post[i as int] == item);
                if post.contains(x) && !pre.contains(x) {
                    let w = choose|w: int| 0 <= w < post.len() && post[w] == x;
                    if w < i {
                        assert(pre[w] == x);
                    }
                }
                if pre.contains(x) {
                    let w = choose|w: int| 0 <= w < pre.len() && pre[w] == x;
                    assert(post[w] == x);
                }
            }
        }
        i = i + 1;
    }
    assert(string_views(v@).take(v.len() as int) =~= string_views(v@));
    out
}

fn string_of_str(s: &str) -> (r: String)
    ensures
        r@ == s@,
{
    crate::text::string_of(&crate::text::chars_of(s))
}

} // verus!
