//! Candidate fusion's bookkeeping: concept results are bundled per wreck, and
//! each bundle carries the latest date any of its results was best on. The
//! composite scores themselves are floating point and computed by the caller
//! from each bundle's members.
use vstd::prelude::*;
use crate::sar::{positions_of, lemma_positions_absent};
use crate::text::string_views;
use crate::text::{chars_of, chars_eq, string_of};

verus! {

/// The results that share one key, by position.
#[derive(Debug, Clone)]
pub struct KeyGroup {
    pub key: String,
    pub members: Vec<usize>,
}

pub open spec fn keys_of(g: Seq<KeyGroup>) -> Seq<Seq<char>> {
    g.map_values(|x: KeyGroup| x.key@)
}

fn find_key(groups: &Vec<KeyGroup>, key: &Vec<char>) -> (r: Option<usize>)
    ensures
        match r {
            Some(g) => g < groups.len() && groups@[g as int].key@ == key@,
            None => forall|h: int| 0 <= h < groups.len() ==> (#[trigger] groups@[h]).key@ != key@,
        },
{
    let mut g: usize = 0;
    while g < groups.len()
        invariant
            g <= groups.len(),
            forall|h: int| 0 <= h < g ==> (#[trigger] groups@[h]).key@ != key@,
        decreases groups.len() - g,
    {
        let name = chars_of(groups[g].key.as_str());
        if chars_eq(&name, key) {
            return Some(g);
        }
        g = g + 1;
    }
    None
}

/// The results bundled by key (a wreck's id): one group per distinct key, in
/// the order keys first occur, each listing the positions of its results in
/// order.
pub fn group_by_key(keys: &Vec<String>) -> (r: Vec<KeyGroup>)
    ensures
        keys_of(r@).no_duplicates(),
        forall|k: Seq<char>| keys_of(r@).contains(k) <==> string_views(keys@).contains(k),
        forall|g: int| 0 <= g < r.len() ==> (#[trigger] r@[g]).members@ == positions_of(string_views(keys@), r@[g].key@),
{
    let mut groups: Vec<KeyGroup> = Vec::new();
    let mut i: usize = 0;
    while i < keys.len()
        invariant
            i <= keys.len(),
            keys_of(groups@).no_duplicates(),
            forall|k: Seq<char>| keys_of(groups@).contains(k) <==> string_views(keys@).take(i as int).contains(k),
            forall|g: int|
                0 <= g < groups.len() ==> (#[trigger] groups@[g]).members@ == positions_of(
                    string_views(keys@).take(i as int),
                    groups@[g].key@,
                ),
        decreases keys.len() - i,
    {
        let key = chars_of(keys[i].as_str());
        let ghost tags = string_views(keys@);
        let ghost before = groups@;
        let ghost pre = tags.take(i as int);
        let ghost post = tags.take(i + 1);
        proof {
            assert(post.drop_last() =~= pre);
            assert(post.last() == key@);
            assert(tags[i as int] == keys@[i as int]@);
        }
        match find_key(&groups, &key) {
            Some(g) => {
                let mut grp = groups.remove(g);
                grp.members.push(i);
                groups.insert(g, grp);
                proof {
                    assert(groups@ =~= before.update(g as int, groups@[g as int]));
                    assert(keys_of(groups@) =~= keys_of(before));
                    assert forall|h: int| 0 <= h < groups.len() implies (#[trigger] groups@[h]).members@ == positions_of(
                        post,
                        groups@[h].key@,
                    ) by {
                        if h != g {
                            assert(groups@[h] == before[h]);
                            if before[h].key@ == key@ {
                                assert(keys_of(before)[h] == keys_of(before)[g as int]);
                            }
                        }
                    }
                    assert forall|k: Seq<char>| keys_of(groups@).contains(k) <==> post.contains(k) by {
                        if post.contains(k) && !pre.contains(k) {
                            let w = choose|w: int| 0 <= w < i + 1 && post[w] == k;
                            if w < i {
                                assert(pre[w] == k);
                            }
                            assert(keys_of(groups@)[g as int] == k);
                        }
                        if pre.contains(k) {
                            let w = choose|w: int| 0 <= w < i && pre[w] == k;
                            assert(post[w] == k);
                        }
                    }
                }
            },
            None => {
                let mut members: Vec<usize> = Vec::new();
                members.push(i);
                groups.push(KeyGroup { key: string_of(&key), members });
                proof {
                    assert(keys_of(groups@) =~= keys_of(before).push(key@));
                    assert(!keys_of(before).contains(key@)) by {
                        if keys_of(before).contains(key@) {
                            let h = choose|h: int| 0 <= h < before.len() && keys_of(before)[h] == key@;
                            assert(before[h].key@ == key@);
                        }
                    }
                    assert(!pre.contains(key@));
                    lemma_positions_absent(pre, key@);
                    assert forall|h: int| 0 <= h < groups.len() implies (#[trigger] groups@[h]).members@ == positions_of(
                        post,
                        groups@[h].key@,
                    ) by {
                        if h < before.len() {
                            assert(groups@[h] == before[h]);
                        }
                    }
                    assert forall|a: int, b: int|
                        0 <= a < b < keys_of(groups@).len() implies keys_of(groups@)[a] != keys_of(groups@)[b] by {
                        assert(keys_of(before)[a] == keys_of(groups@)[a]);
                        if b < before.len() {
                            assert(keys_of(before)[b] == keys_of(groups@)[b]);
                        }
                    }
                    assert forall|k: Seq<char>| keys_of(groups@).contains(k) <==> post.contains(k) by {
                        if post.contains(k) && !pre.contains(k) {
                            let w = choose|w: int| 0 <= w < i + 1 && post[w] == k;
                            if w < i {
                                assert(pre[w] == k);
                            }
                            assert(keys_of(groups@)[before.len() as int] == k);
                        }
                        if pre.contains(k) {
                            let w = choose|w: int| 0 <= w < i && pre[w] == k;
                            assert(post[w] == k);
                        }
                        if keys_of(groups@).contains(k) {
                            let h = choose|h: int| 0 <= h < groups.len() && keys_of(groups@)[h] == k;
                            if h < before.len() {
                                assert(keys_of(before)[h] == k);
                            } else {
                                assert(post[i as int] == k);
                            }
                        }
                        if keys_of(before).contains(k) {
                            let h = choose|h: int| 0 <= h < before.len() && keys_of(before)[h] == k;
                            assert(keys_of(groups@)[h] == k);
                        }
                    }
                }
            },
        }
        i = i + 1;
    }
    proof {
        assert(string_views(keys@).take(keys.len() as int) =~= string_views(keys@));
    }
    groups
}

/// The latest of the dates (as day numbers) of the results at `members`;
/// results without a date are passed over.
pub open spec fn latest_of(dates: Seq<Option<i32>>, members: Seq<usize>) -> Option<i32>
    decreases members.len(),
{
    if members.len() == 0 {
        None
    } else {
        let prev = latest_of(dates, members.drop_last());
        match dates[members.last() as int] {
            None => prev,
            Some(d) => match prev {
                None => Some(d),
                Some(e) => if d > e {
                    Some(d)
                } else {
                    Some(e)
                },
            },
        }
    }
}

/// The latest date among a bundle's results (see `latest_of`).
pub fn latest_date(dates: &Vec<Option<i32>>, members: &Vec<usize>) -> (r: Option<i32>)
    requires
        forall|t: int| 0 <= t < members.len() ==> #[trigger] members@[t] < dates.len(),
    ensures
        r == latest_of(dates@, members@),
        r matches Some(d) ==> exists|t: int| 0 <= t < members.len() && dates@[#[trigger] members@[t] as int] == Some(d),
{
    let mut best: Option<i32> = None;
    let mut t: usize = 0;
    while t < members.len()
        invariant
            t <= members.len(),
            forall|u: int| 0 <= u < members.len() ==> #[trigger] members@[u] < dates.len(),
            best == latest_of(dates@, members@.take(t as int)),
            best matches Some(d) ==> exists|u: int| 0 <= u < t && dates@[#[trigger] members@[u] as int] == Some(d),
        decreases members.len() - t,
    {
        assert(members@.take(t + 1).drop_last() =~= members@.take(t as int));
        assert(members@.take(t + 1).last() == members@[t as int]);
        match dates[members[t]] {
            None => {},
            Some(d) => {
                match best {
                    None => {
                        best = Some(d);
                    },
                    Some(e) => {
                        if d > e {
                            best = Some(d);
                        }
                    },
                }
            },
        }
        t = t + 1;
    }
    assert(members@.take(members.len() as int) =~= members@);
    best
}

} // verus!
