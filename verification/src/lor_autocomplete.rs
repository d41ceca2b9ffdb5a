use vstd::prelude::*;

use crate::discord::DiscordInteractionOptions;
use crate::lor_command::{is_text_or_absent, text_of};
use crate::text::{str_eq, views};
use crate::utils::named_value;

verus! {

/// The text of the `query` option, empty while the user has typed nothing.
pub fn get_query_option(vec: &[DiscordInteractionOptions]) -> (q: String)
    requires
        is_text_or_absent(named_value(vec@, "query"@)),
    ensures
        q@ == match text_of(named_value(vec@, "query"@)) {
            Some(s) => s,
            None => Seq::empty(),
        },
{
    match crate::lor_command::option_text("query", vec) {
        Some(s) => s,
        None => String::new(),
    }
}

/// The text of the `locale` option, if it is given.
pub fn get_locale_option(vec: &[DiscordInteractionOptions]) -> (l: Option<String>)
    requires
        is_text_or_absent(named_value(vec@, "locale"@)),
    ensures
        match l {
            Some(s) => text_of(named_value(vec@, "locale"@)) == Some(s@),
            None => named_value(vec@, "locale"@) is None,
        },
{
    crate::lor_command::get_locale_option(vec)
}


/// The ids that each token of a search finds, as plain values.
pub open spec fn sets_view(sets: Seq<Vec<String>>) -> Seq<Seq<Seq<char>>> {
    sets.map_values(|v: Vec<String>| views(v@))
}

/// How many of the tokens find `id`.
pub open spec fn hits(sets: Seq<Seq<Seq<char>>>, id: Seq<char>) -> nat
    decreases sets.len(),
{
    if sets.len() == 0 {
        0
    } else {
        hits(sets.drop_last(), id) + if sets.last().contains(id) {
            1nat
        } else {
            0nat
        }
    }
}

/// Whether some token finds `id`.
pub open spec fn found_by_some(sets: Seq<Seq<Seq<char>>>, id: Seq<char>) -> bool {
    exists|i: int| 0 <= i < sets.len() && #[trigger] sets[i].contains(id)
}

/// Whether the texts are all different.
pub open spec fn all_distinct(s: Seq<Seq<char>>) -> bool {
    forall|a: int, b: int| 0 <= a < b < s.len() ==> s[a] != s[b]
}

/// Whether `v` holds the text `x`.
fn contains_text(v: &Vec<String>, x: &str) -> (b: bool)
    ensures
        b == views(v@).contains(x@),
{
    let mut i: usize = 0;
    while i < v.len()
        invariant
            i <= v.len(),
            forall|k: int| 0 <= k < i ==> views(v@)[k] != x@,
        decreases v.len() - i,
    {
        if str_eq(v[i].as_str(), x) {
            assert(views(v@)[i as int] == x@);
            return true;
        }
        i = i + 1;
    }
    false
}

/// The ids that some token finds, each once, in the order they are first met.
fn distinct_ids(sets: &Vec<Vec<String>>) -> (ids: Vec<String>)
    ensures
        all_distinct(views(ids@)),
        forall|k: int| 0 <= k < ids.len() ==> found_by_some(sets_view(sets@), #[trigger] views(ids@)[k]),
        forall|id: Seq<char>| found_by_some(sets_view(sets@), id) ==> views(ids@).contains(id),
{
    let ghost sv = sets_view(sets@);
    let mut ids: Vec<String> = Vec::new();
    let mut i: usize = 0;
    while i < sets.len()
        invariant
            i <= sets.len(),
            sv == sets_view(sets@),
            all_distinct(views(ids@)),
            forall|k: int| 0 <= k < ids.len() ==> found_by_some(sv, #[trigger] views(ids@)[k]),
            forall|a: int, id: Seq<char>| 0 <= a < i && #[trigger] sv[a].contains(id) ==> views(ids@).contains(id),
        decreases sets.len() - i,
    {
        let set = &sets[i];
        assert(sv[i as int] == views(set@));
        let mut j: usize = 0;
        while j < set.len()
            invariant
                i < sets.len(),
                j <= set.len(),
                sv == sets_view(sets@),
                sv[i as int] == views(set@),
                all_distinct(views(ids@)),
                forall|k: int| 0 <= k < ids.len() ==> found_by_some(sv, #[trigger] views(ids@)[k]),
                forall|a: int, id: Seq<char>| 0 <= a < i && #[trigger] sv[a].contains(id) ==> views(ids@).contains(id),
                forall|b: int| 0 <= b < j ==> views(ids@).contains(#[trigger] views(set@)[b]),
            decreases set.len() - j,
        {
            let x = set[j].as_str();
            assert(views(set@)[j as int] == x@);
            assert(sv[i as int].contains(x@));
            if !contains_text(&ids, x) {
                let ghost before = views(ids@);
                ids.push(set[j].clone());
                assert(views(ids@) =~= before.push(x@));
                assert forall|a: int, id: Seq<char>| 0 <= a < i && #[trigger] sv[a].contains(id) implies views(ids@).contains(id) by {
                    let w = choose|w: int| 0 <= w < before.len() && before[w] == id;
                    assert(views(ids@)[w] == id);
                }
                assert forall|b: int| 0 <= b < j + 1 implies views(ids@).contains(#[trigger] views(set@)[b]) by {
                    if b < j {
                        let w = choose|w: int| 0 <= w < before.len() && before[w] == views(set@)[b];
                        assert(views(ids@)[w] == views(set@)[b]);
                    } else {
                        assert(views(ids@)[before.len() as int] == x@);
                    }
                }
                assert forall|k: int| 0 <= k < ids.len() implies found_by_some(sv, #[trigger] views(ids@)[k]) by {
                    if k == before.len() {
                        assert(sv[i as int].contains(views(ids@)[k]));
                    } else {
                        assert(views(ids@)[k] == before[k]);
                    }
                }
            }
            j = j + 1;
        }
        assert forall|a: int, id: Seq<char>| 0 <= a < i + 1 && #[trigger] sv[a].contains(id) implies views(ids@).contains(id) by {
            if a == i {
                let b = choose|b: int| 0 <= b < sv[a].len() && sv[a][b] == id;
                assert(views(set@)[b] == id);
            }
        }
        i = i + 1;
    }
    assert forall|id: Seq<char>| found_by_some(sv, id) implies views(ids@).contains(id) by {
        let a = choose|a: int| 0 <= a < sv.len() && #[trigger] sv[a].contains(id);
        assert(sv[a].contains(id));
    }
    ids
}

/// How many of the tokens find `id`.
fn count_hits(sets: &Vec<Vec<String>>, id: &str) -> (c: u64)
    ensures
        c == hits(sets_view(sets@), id@),
{
    let ghost sv = sets_view(sets@);
    let mut c: u64 = 0;
    let mut i: usize = 0;
    while i < sets.len()
        invariant
            i <= sets.len(),
            sv == sets_view(sets@),
            c == hits(sv.take(i as int), id@),
            c <= i,
        decreases sets.len() - i,
    {
        assert(sv.take(i + 1).drop_last() =~= sv.take(i as int));
        assert(sv.take(i + 1).last() == views(sets@[i as int]@));
        if contains_text(&sets[i], id) {
            c = c + 1;
        }
        i = i + 1;
    }
    assert(sv.take(sets.len() as int) =~= sv);
    c
}

/// The ids that the tokens of a search find, each once, the ones that more tokens find
/// first. Ties come in no promised order, as they come out of the count table.
pub fn rank_typed_ids(sets: &Vec<Vec<String>>) -> (r: Vec<String>)
    ensures
        all_distinct(views(r@)),
        forall|k: int| 0 <= k < r.len() ==> found_by_some(sets_view(sets@), #[trigger] views(r@)[k]),
        forall|id: Seq<char>| found_by_some(sets_view(sets@), id) ==> views(r@).contains(id),
        forall|a: int, b: int|
            0 <= a < b < r.len() ==> hits(sets_view(sets@), #[trigger] views(r@)[a]) >= hits(
                sets_view(sets@),
                #[trigger] views(r@)[b],
            ),
{
    let ghost sv = sets_view(sets@);
    let ids = distinct_ids(sets);
    let n = ids.len();
    let mut counts: Vec<u64> = Vec::new();
    let mut k: usize = 0;
    while k < n
        invariant
            k <= n,
            n == ids.len(),
            sv == sets_view(sets@),
            counts.len() == k,
            forall|t: int| 0 <= t < k ==> counts@[t] == hits(sv, #[trigger] views(ids@)[t]),
        decreases n - k,
    {
        let c = count_hits(sets, ids[k].as_str());
        counts.push(c);
        k = k + 1;
    }
    // insertion of each index after those found at least as often
    let mut order: Vec<usize> = Vec::new();
    let mut k: usize = 0;
    while k < n
        invariant
            k <= n,
            n == ids.len(),
            counts.len() == n,
            order.len() == k,
            forall|a: int| 0 <= a < k ==> #[trigger] order@[a] < k,
            forall|a: int, b: int| 0 <= a < b < k ==> order@[a] != order@[b],
            forall|t: usize| t < k ==> #[trigger] order@.contains(t),
            forall|a: int, b: int| 0 <= a < b < k ==> counts@[order@[a] as int] >= counts@[order@[b] as int],
        decreases n - k,
    {
        let mut p: usize = 0;
        while p < order.len() && counts[order[p]] >= counts[k]
            invariant
                p <= order.len(),
                order.len() == k,
                k < n,
                counts.len() == n,
                forall|a: int| 0 <= a < k ==> #[trigger] order@[a] < k,
                forall|a: int| 0 <= a < p ==> counts@[order@[a] as int] >= counts@[k as int],
            decreases order.len() - p,
        {
            p = p + 1;
        }
        let ghost before = order@;
        proof {
            if p < before.len() {
                assert(counts@[before[p as int] as int] < counts@[k as int]);
            }
        }
        order.insert(p, k);
        assert(order@ == before.insert(p as int, k));
        assert forall|a: int| 0 <= a < k + 1 implies #[trigger] order@[a] < k + 1 by {
            if a < p {
                assert(order@[a] == before[a]);
            } else if a > p {
                assert(order@[a] == before[a - 1]);
            }
        }
        assert forall|a: int, b: int| 0 <= a < b < k + 1 implies order@[a] != order@[b] by {
            if a < p && b < p {
                assert(order@[a] == before[a] && order@[b] == before[b]);
            } else if a < p && b > p {
                assert(order@[a] == before[a] && order@[b] == before[b - 1]);
            } else if a > p && b > p {
                assert(order@[a] == before[a - 1] && order@[b] == before[b - 1]);
            } else if a == p {
                if b > p {
                    assert(order@[b] == before[b - 1]);
                }
            } else {
                assert(order@[a] == before[a]);
            }
        }
        assert forall|t: usize| t < k + 1 implies #[trigger] order@.contains(t) by {
            if t == k {
                assert(order@[p as int] == k);
            } else {
                assert(before.contains(t));
                let w = choose|w: int| 0 <= w < before.len() && before[w] == t;
                if w < p {
                    assert(order@[w] == t);
                } else {
                    assert(order@[w + 1] == t);
                }
            }
        }
        assert forall|a: int, b: int| 0 <= a < b < k + 1 implies counts@[order@[a] as int] >= counts@[order@[b] as int] by {
            if b < p {
                assert(order@[a] == before[a] && order@[b] == before[b]);
            } else if b == p {
                assert(order@[a] == before[a]);
            } else if a < p {
                assert(order@[a] == before[a] && order@[b] == before[b - 1]);
                assert(counts@[before[p as int] as int] < counts@[k as int]);
                assert(counts@[before[p as int] as int] >= counts@[before[b - 1] as int] || b - 1 == p);
            } else if a == p {
                assert(order@[b] == before[b - 1]);
                assert(counts@[before[p as int] as int] >= counts@[before[b - 1] as int] || b - 1 == p);
            } else {
                assert(order@[a] == before[a - 1] && order@[b] == before[b - 1]);
            }
        }
        k = k + 1;
    }
    let mut r: Vec<String> = Vec::new();
    let mut j: usize = 0;
    while j < n
        invariant
            j <= n,
            n == ids.len(),
            order.len() == n,
            counts.len() == n,
            sv == sets_view(sets@),
            forall|a: int| 0 <= a < n ==> #[trigger] order@[a] < n,
            r.len() == j,
            forall|a: int| 0 <= a < j ==> views(r@)[a] == views(ids@)[order@[a] as int],
        decreases n - j,
    {
        let ghost before = views(r@);
        r.push(ids[order[j]].clone());
        assert(views(r@) =~= before.push(views(ids@)[order@[j as int] as int]));
        j = j + 1;
    }
    proof {
        let rv = views(r@);
        let iv = views(ids@);
        assert forall|a: int, b: int| 0 <= a < b < r.len() implies rv[a] != rv[b] by {
            assert(order@[a] != order@[b]);
        }
        assert forall|k: int| 0 <= k < r.len() implies found_by_some(sv, #[trigger] rv[k]) by {
            assert(rv[k] == iv[order@[k] as int]);
            assert(found_by_some(sv, iv[order@[k] as int]));
        }
        assert forall|id: Seq<char>| found_by_some(sv, id) implies rv.contains(id) by {
            let t = choose|t: int| 0 <= t < iv.len() && iv[t] == id;
            assert(order@.contains(t as usize));
            let w = choose|w: int| 0 <= w < order@.len() && order@[w] == t as usize;
            assert(rv[w] == iv[order@[w] as int]);
            assert(rv[w] == id);
        }
        assert forall|a: int, b: int| 0 <= a < b < r.len() implies hits(sv, #[trigger] rv[a]) >= hits(sv, #[trigger] rv[b]) by {
            assert(counts@[order@[a] as int] >= counts@[order@[b] as int]);
            assert(counts@[order@[a] as int] == hits(sv, iv[order@[a] as int]));
            assert(counts@[order@[b] as int] == hits(sv, iv[order@[b] as int]));
        }
    }
    r
}

} // verus!
