use vstd::prelude::*;

use crate::analyzer::{distinct_keys, key_index, lemma_key_index, lemma_occurrences_bound, lemma_tally, occurrences, tally};
use crate::text::{append_str, str_eq, string_of, views};

verus! {

/// The views of a sequence of string slices.
pub open spec fn str_views(ss: Seq<&str>) -> Seq<Seq<char>> {
    ss.map_values(|x: &str| x@)
}

/// The items of `s`, one per line, each after a dash and a space.
pub open spec fn bullet_list(s: Seq<Seq<char>>) -> Seq<char>
    decreases s.len(),
{
    if s.len() == 0 {
        Seq::empty()
    } else if s.len() == 1 {
        seq!['-', ' '] + s[0]
    } else {
        bullet_list(s.drop_last()) + seq!['\n', '-', ' '] + s.last()
    }
}

/// The lines `- item`, joined by line breaks.
fn bullets(v: &[String]) -> (s: String)
    ensures
        s@ == bullet_list(views(v@)),
{
    let mut out: Vec<char> = Vec::new();
    let mut i: usize = 0;
    while i < v.len()
        invariant
            i <= v.len(),
            out@ == bullet_list(views(v@.take(i as int))),
        decreases v.len() - i,
    {
        let ghost before = out@;
        assert(views(v@.take(i + 1)).drop_last() == views(v@.take(i as int)));
        if i > 0 {
            out.push('\n');
        }
        out.push('-');
        out.push(' ');
        append_str(&mut out, v[i].as_str());
        i = i + 1;
        if i == 1 {
            assert(out@ == seq!['-', ' '] + v@[0]@);
        } else {
            assert(out@ == before + seq!['\n', '-', ' '] + v@[i - 1]@);
        }
    }
    assert(v@.take(v.len() as int) == v@);
    string_of(&out)
}

/// The items as a dashed list, one per line.
pub fn format_to_list(v: &[String]) -> (s: String)
    ensures
        s@ == bullet_list(views(v@)),
{
    bullets(v)
}

/// The items as a dashed list, one per line.
pub fn format_to_indented_list(v: &[String]) -> (s: String)
    ensures
        s@ == bullet_list(views(v@)),
{
    bullets(v)
}

/// Counts seen as plain values.
pub open spec fn count_view(v: Seq<(&str, i32)>) -> Seq<(Seq<char>, nat)> {
    v.map_values(|e: (&str, i32)| (e.0@, e.1 as nat))
}

/// The distinct items of `s`, in order of first occurrence.
pub open spec fn first_occurrences(s: Seq<Seq<char>>) -> Seq<Seq<char>> {
    tally(s).map_values(|e: (Seq<char>, nat)| e.0)
}

/// The position of the entry whose key is `g`, found from the end.
fn find_entry(entries: &Vec<(&str, i32)>, g: &str) -> (k: Option<usize>)
    ensures
        match k {
            Some(k) => k < entries.len() && k as int == key_index(count_view(entries@), g@),
            None => key_index(count_view(entries@), g@) == -1,
        },
{
    let ghost v = count_view(entries@);
    proof {
        lemma_key_index(v, g@);
    }
    let mut j: usize = entries.len();
    while j > 0
        invariant
            j <= entries.len(),
            v == count_view(entries@),
            -1 <= key_index(v, g@) < v.len(),
            key_index(v, g@) >= 0 ==> v[key_index(v, g@)].0 == g@,
            key_index(v, g@) >= 0 ==> forall|m: int| key_index(v, g@) < m < v.len() ==> v[m].0 != g@,
            key_index(v, g@) == -1 <==> forall|m: int| 0 <= m < v.len() ==> v[m].0 != g@,
            forall|m: int| j <= m < v.len() ==> v[m].0 != g@,
        decreases j,
    {
        if str_eq(entries[j - 1].0, g) {
            assert(v[j - 1].0 == g@);
            return Some(j - 1);
        }
        j = j - 1;
    }
    None
}

/// How many times each distinct item occurs, items in order of first occurrence.
pub fn aggregate_count<'a>(v: &[&'a str]) -> (counts: Vec<(&'a str, i32)>)
    requires
        v.len() <= i32::MAX,
    ensures
        count_view(counts@) == tally(str_views(v@)),
        distinct_keys(count_view(counts@)),
        forall|m: int| 0 <= m < counts.len() ==> #[trigger] counts@[m].1 >= 1,
{
    let mut entries: Vec<(&'a str, i32)> = Vec::new();
    let mut i: usize = 0;
    while i < v.len()
        invariant
            i <= v.len() <= i32::MAX,
            count_view(entries@) == tally(str_views(v@.take(i as int))),
            forall|m: int| 0 <= m < entries.len() ==> #[trigger] entries@[m].1 >= 1,
        decreases v.len() - i,
    {
        let ghost prefix = str_views(v@.take(i as int));
        assert(str_views(v@.take(i + 1)) == prefix.push(v@[i as int]@));
        assert(str_views(v@.take(i + 1)).drop_last() == prefix);
        proof {
            lemma_tally(prefix);
        }
        match find_entry(&entries, v[i]) {
            Some(k) => {
                let ghost r = tally(prefix);
                proof {
                    lemma_key_index(r, v@[i as int]@);
                    lemma_occurrences_bound(prefix, v@[i as int]@);
                    assert(r[k as int].1 == occurrences(prefix, r[k as int].0));
                    assert(count_view(entries@)[k as int] == r[k as int]);
                }
                let c = entries[k].1;
                let key = entries[k].0;
                let ghost old_entries = entries@;
                entries.set(k, (key, c + 1));
                assert(count_view(entries@) =~= count_view(old_entries).update(
                    k as int,
                    (v@[i as int]@, (c + 1) as nat),
                ));
                assert(tally(str_views(v@.take(i + 1))) == r.update(k as int, (v@[i as int]@, r[k as int].1 + 1)));
                assert(count_view(entries@) =~= tally(str_views(v@.take(i + 1))));
            },
            None => {
                let ghost old_entries = entries@;
                entries.push((v[i], 1));
                assert(count_view(entries@) =~= count_view(old_entries).push((v@[i as int]@, 1nat)));
                assert(count_view(entries@) =~= tally(str_views(v@.take(i + 1))));
            },
        }
        i = i + 1;
    }
    assert(v@.take(v.len() as int) == v@);
    proof {
        lemma_tally(str_views(v@));
    }
    entries
}

/// Whether some item of `v` reads `s`.
fn holds_str(v: &Vec<&str>, s: &str) -> (b: bool)
    ensures
        b == str_views(v@).contains(s@),
{
    let mut j: usize = 0;
    while j < v.len()
        invariant
            j <= v.len(),
            forall|m: int| 0 <= m < j ==> v@[m]@ != s@,
        decreases v.len() - j,
    {
        if str_eq(v[j], s) {
            assert(str_views(v@)[j as int] == s@);
            return true;
        }
        j = j + 1;
    }
    false
}

/// Removes every item that reads the same as an earlier one, keeping the order of the rest.
pub fn dedup_preserve_order(v: &mut Vec<&str>)
    ensures
        str_views(final(v)@) == first_occurrences(str_views(old(v)@)),
        forall|i: int, j: int|
            0 <= i < j < final(v)@.len() ==> #[trigger] final(v)@[i]@ != #[trigger] final(v)@[j]@,
        forall|x: Seq<char>| str_views(final(v)@).contains(x) <==> str_views(old(v)@).contains(x),
{
    let mut out: Vec<&str> = Vec::new();
    let mut i: usize = 0;
    while i < v.len()
        invariant
            i <= v.len(),
            str_views(out@) == first_occurrences(str_views(v@.take(i as int))),
        decreases v.len() - i,
    {
        let ghost prefix = str_views(v@.take(i as int));
        let ghost r = tally(prefix);
        let ghost x = v@[i as int]@;
        assert(str_views(v@.take(i + 1)) == prefix.push(x));
        assert(str_views(v@.take(i + 1)).drop_last() == prefix);
        proof {
            lemma_key_index(r, x);
        }
        let ghost before = out@;
        if !holds_str(&out, v[i]) {
            assert(forall|m: int| 0 <= m < r.len() ==> r[m].0 != x) by {
                assert forall|m: int| 0 <= m < r.len() implies r[m].0 != x by {
                    assert(str_views(out@)[m] == r[m].0);
                }
            }
            out.push(v[i]);
            assert(str_views(out@) =~= str_views(before).push(x));
            assert(tally(prefix.push(x)) == r.push((x, 1nat)));
            assert(str_views(out@) =~= first_occurrences(str_views(v@.take(i + 1))));
        } else {
            let ghost k = choose|m: int| 0 <= m < out@.len() && str_views(out@)[m] == x;
            assert(r[k].0 == x);
            assert(key_index(r, x) >= 0);
            let ghost kk = key_index(r, x);
            assert(tally(prefix.push(x)) == r.update(kk, (x, r[kk].1 + 1)));
            assert(first_occurrences(str_views(v@.take(i + 1))) =~= first_occurrences(prefix));
        }
        i = i + 1;
    }
    assert(v@.take(v.len() as int) == v@);
    proof {
        let s = str_views(v@);
        lemma_tally(s);
        assert forall|i: int, j: int| 0 <= i < j < out@.len() implies #[trigger] out@[i]@ != #[trigger] out@[j]@ by {
            assert(str_views(out@)[i] == tally(s)[i].0);
            assert(str_views(out@)[j] == tally(s)[j].0);
        }
        assert forall|x: Seq<char>| str_views(out@).contains(x) <==> s.contains(x) by {
            if str_views(out@).contains(x) {
                let m = choose|m: int| 0 <= m < out@.len() && str_views(out@)[m] == x;
                assert(tally(s)[m].0 == x);
            }
            if s.contains(x) {
                lemma_key_index(tally(s), x);
                let kk = key_index(tally(s), x);
                assert(str_views(out@)[kk] == x);
            }
        }
    }
    *v = out;
}

} // verus!
