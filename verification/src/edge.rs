//! Routing of the edge proxy: which upstream serves a request path and the
//! address the request is forwarded to.
use vstd::prelude::*;
use crate::text::{chars_of, starts_with, string_of, append_chars};

verus! {

/// `s` with every trailing occurrence of `pat` removed (`str::trim_end_matches`).
pub open spec fn strip_suffixes(s: Seq<char>, pat: Seq<char>) -> Seq<char>
    decreases s.len(),
{
    if pat.len() > 0 && pat.len() <= s.len() && s.skip(s.len() - pat.len()) == pat {
        strip_suffixes(s.take(s.len() - pat.len()), pat)
    } else {
        s
    }
}

/// `s` with every leading `c` removed (`str::trim_start_matches`).
pub open spec fn strip_leading(s: Seq<char>, c: char) -> Seq<char>
    decreases s.len(),
{
    if s.len() > 0 && s[0] == c {
        strip_leading(s.drop_first(), c)
    } else {
        s
    }
}

/// `s` with every trailing occurrence of `pat` removed.
pub fn strip_suffixes_exec(s: &Vec<char>, pat: &Vec<char>) -> (r: Vec<char>)
    ensures
        r@ == strip_suffixes(s@, pat@),
{
    let mut end: usize = s.len();
    assert(s@.take(end as int) =~= s@);
    loop
        invariant
            end <= s.len(),
            strip_suffixes(s@, pat@) == strip_suffixes(s@.take(end as int), pat@),
        ensures
            end <= s.len(),
            strip_suffixes(s@, pat@) == s@.take(end as int),
        decreases end,
    {
        let ghost cur = s@.take(end as int);
        if pat.len() == 0 || pat.len() > end {
            break;
        }
        let start = end - pat.len();
        let mut k: usize = 0;
        let mut same = true;
        while k < pat.len()
            invariant
                k <= pat.len(),
                start + pat.len() == end,
                end <= s.len(),
                same == forall|j: int| 0 <= j < k ==> s@[start + j] == pat@[j],
            decreases pat.len() - k,
        {
            if s[start + k] != pat[k] {
                same = false;
            }
            k = k + 1;
        }
        proof {
            if same {
                assert(cur.skip(cur.len() - pat.len()) =~= pat@);
            } else {
                let j = choose|j: int| 0 <= j < pat.len() && s@[start + j] != pat@[j];
                assert(cur.skip(cur.len() - pat.len())[j] != pat@[j]);
            }
        }
        if !same {
            break;
        }
        assert(cur.take(cur.len() - pat.len()) =~= s@.take(start as int));
        end = start;
    }
    let mut r: Vec<char> = Vec::new();
    let mut k: usize = 0;
    while k < end
        invariant
            k <= end <= s.len(),
            r@ == s@.take(k as int),
        decreases end - k,
    {
        r.push(s[k]);
        k = k + 1;
        assert(r@ =~= s@.take(k as int));
    }
    r
}

/// `s` with every leading `c` removed.
fn strip_leading_exec(s: &Vec<char>, c: char) -> (r: Vec<char>)
    ensures
        r@ == strip_leading(s@, c),
{
    let mut start: usize = 0;
    assert(s@.skip(0) =~= s@);
    while start < s.len() && s[start] == c
        invariant
            start <= s.len(),
            strip_leading(s@, c) == strip_leading(s@.skip(start as int), c),
        decreases s.len() - start,
    {
        assert(s@.skip(start as int).drop_first() =~= s@.skip(start + 1));
        start = start + 1;
    }
    let mut r: Vec<char> = Vec::new();
    let mut k: usize = start;
    while k < s.len()
        invariant
            start <= k <= s.len(),
            r@ == s@.subrange(start as int, k as int),
        decreases s.len() - k,
    {
        r.push(s[k]);
        k = k + 1;
        assert(r@ =~= s@.subrange(start as int, k as int));
    }
    assert(s@.subrange(start as int, s.len() as int) =~= s@.skip(start as int));
    r
}

/// A proxied path prefix and the upstream that serves it.
#[derive(Debug, Clone)]
pub struct RouteConfig {
    pub path_prefix: String,
    pub upstream: String,
}

/// The prefix a route matches: its configured prefix without trailing `/`.
pub open spec fn route_prefix(r: RouteConfig) -> Seq<char> {
    strip_suffixes(r.path_prefix@, "/"@)
}

/// The position of the first route whose prefix starts the path.
pub open spec fn first_route(routes: Seq<RouteConfig>, path: Seq<char>) -> Option<int>
    decreases routes.len(),
{
    if routes.len() == 0 {
        None
    } else {
        match first_route(routes.drop_last(), path) {
            Some(i) => Some(i),
            None => if starts_with(path, route_prefix(routes.last())) {
                Some(routes.len() - 1)
            } else {
                None
            },
        }
    }
}

/// Where route `r` sends `path` (with its query, if any): the upstream without
/// trailing `/`, then `/` and the rest of the path after the prefix (its
/// leading `/` removed) when that rest is not empty, then `?` and the query.
pub open spec fn forward_target(r: RouteConfig, path: Seq<char>, query: Option<Seq<char>>) -> Seq<char> {
    let rest = strip_leading(path.skip(route_prefix(r).len() as int), '/');
    let base = strip_suffixes(r.upstream@, "/"@);
    let target = if rest.len() == 0 {
        base
    } else {
        base + "/"@ + rest
    };
    match query {
        Some(q) => target + "?"@ + q,
        None => target,
    }
}

proof fn lemma_first_route_prefix(routes: Seq<RouteConfig>, path: Seq<char>, i: int)
    requires
        0 <= i < routes.len(),
        first_route(routes.take(i), path) is None,
        starts_with(path, route_prefix(routes[i])),
    ensures
        first_route(routes, path) == Some(i),
    decreases routes.len(),
{
    if routes.len() - 1 > i {
        assert(routes.drop_last().take(i) =~= routes.take(i));
        assert(routes.drop_last()[i] == routes[i]);
        lemma_first_route_prefix(routes.drop_last(), path, i);
    } else {
        assert(routes.drop_last() =~= routes.take(i));
    }
}

/// The address a request for `path` (and `query`) is forwarded to, or `None`
/// when no route's prefix starts the path (the proxy answers 404).
pub fn route_request(routes: &Vec<RouteConfig>, path: &str, query: Option<&str>) -> (r: Option<String>)
    ensures
        match first_route(routes@, path@) {
            Some(i) => r matches Some(t) && t@ == forward_target(
                routes@[i],
                path@,
                match query {
                    Some(q) => Some(q@),
                    None => None,
                },
            ),
            None => r is None,
        },
{
    let p = chars_of(path);
    let slash = chars_of("/");
    let mut i: usize = 0;
    while i < routes.len()
        invariant
            i <= routes.len(),
            p@ == path@,
            slash@ == "/"@,
            first_route(routes@.take(i as int), path@) is None,
        decreases routes.len() - i,
    {
        assert(routes@.take(i + 1).drop_last() =~= routes@.take(i as int));
        let r = &routes[i];
        let prefix = strip_suffixes_exec(&chars_of(r.path_prefix.as_str()), &slash);
        if prefix.len() <= p.len() && crate::text::occurs_at_exec(&p, &prefix, 0) {
            proof {
                assert(starts_with(path@, route_prefix(routes@[i as int])));
                lemma_first_route_prefix(routes@, path@, i as int);
            }
            let mut after: Vec<char> = Vec::new();
            let mut k: usize = prefix.len();
            while k < p.len()
                invariant
                    prefix.len() <= k <= p.len(),
                    after@ == p@.subrange(prefix.len() as int, k as int),
                decreases p.len() - k,
            {
                after.push(p[k]);
                k = k + 1;
                assert(after@ =~= p@.subrange(prefix.len() as int, k as int));
            }
            assert(p@.subrange(prefix.len() as int, p.len() as int) =~= p@.skip(prefix.len() as int));
            let rest = strip_leading_exec(&after, '/');
            let mut target = strip_suffixes_exec(&chars_of(r.upstream.as_str()), &slash);
            if rest.len() > 0 {
                append_chars(&mut target, &slash);
                append_chars(&mut target, &rest);
            }
            match query {
                Some(q) => {
                    append_chars(&mut target, &chars_of("?"));
                    append_chars(&mut target, &chars_of(q));
                },
                None => {},
            }
            return Some(string_of(&target));
        }
        proof {
            if prefix.len() <= p.len() {
                assert(!starts_with(path@, route_prefix(routes@[i as int])));
            } else {
                assert(!starts_with(path@, route_prefix(routes@[i as int])));
            }
        }
        i = i + 1;
    }
    assert(routes@.take(routes.len() as int) =~= routes@);
    None
}

/// Whether a request's body is forwarded: not for `GET` or `HEAD`.
pub fn forwards_body(method: &str) -> (r: bool)
    ensures
        r == !(method@ == "GET"@ || method@ == "HEAD"@),
{
    let m = chars_of(method);
    !(crate::text::eq_str(&m, "GET") || crate::text::eq_str(&m, "HEAD"))
}

} // verus!
