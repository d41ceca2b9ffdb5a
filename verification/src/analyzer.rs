use vstd::prelude::*;
use vstd::relations::{sorted_by, total_ordering};
use vstd::seq_lib::{lemma_sorted_unique, group_to_multiset_ensures};

use crate::filters::{filter, filter_spec, is_lowercase_word, is_stopword, lemma_punctuation_filter_word};
use crate::text::{chars_of, lemma_split_append, lemma_split_no_sep, split_on, split_spec, string_of, views};

verus! {

/// The character that pads a token on its left, twice.
pub const LEFT_PAD: char = '^';

/// The character that closes a token on its right.
pub const RIGHT_PAD: char = '|';

/// The length of an n-gram.
pub const N_NGRAM: usize = 3;

/// How many times an n-gram occurs.
pub type Frequency = usize;

/// An n-gram: a few consecutive characters of a padded token.
#[derive(Debug)]
pub struct Ngram(pub String);

impl View for Ngram {
    type V = Seq<char>;

    open spec fn view(&self) -> Seq<char> {
        self.0@
    }
}

/// The order of characters by code point.
pub open spec fn char_leq() -> spec_fn(char, char) -> bool {
    |a: char, b: char| a <= b
}

/// The characters of `s` in ascending order.
pub open spec fn sort_chars(s: Seq<char>) -> Seq<char> {
    s.sort_by(char_leq())
}

pub proof fn lemma_char_leq_total()
    ensures
        total_ordering(char_leq()),
{
    let r = char_leq();
    assert(vstd::relations::reflexive(r));
    assert(vstd::relations::antisymmetric(r)) by {
        assert forall|a: char, b: char| #[trigger] r(a, b) && #[trigger] r(b, a) implies a == b by {
            assert(a as u32 == b as u32);
        }
    }
    assert(vstd::relations::transitive(r));
    assert(vstd::relations::strongly_connected(r));
}

/// A token with its padding: two `^` before, one `|` after.
pub open spec fn pad_spec(t: Seq<char>) -> Seq<char> {
    seq![LEFT_PAD, LEFT_PAD] + t + seq![RIGHT_PAD]
}

/// Splits a text into tokens at each space.
pub fn tokenize(txt: &str) -> (tokens: Vec<String>)
    ensures
        views(tokens@) == split_spec(txt@, ' '),
{
    split_on(txt, ' ')
}

/// A token with its padding.
pub fn pad(token: &String) -> (padded: String)
    ensures
        padded@ == pad_spec(token@),
{
    let t = chars_of(token.as_str());
    let mut out: Vec<char> = Vec::new();
    out.push(LEFT_PAD);
    out.push(LEFT_PAD);
    let mut i: usize = 0;
    while i < t.len()
        invariant
            i <= t.len(),
            out@ == seq![LEFT_PAD, LEFT_PAD] + t@.take(i as int),
        decreases t.len() - i,
    {
        out.push(t[i]);
        i = i + 1;
        assert(t@.take(i as int) == t@.take(i - 1).push(t@[i - 1]));
    }
    assert(t@.take(t.len() as int) == t@);
    out.push(RIGHT_PAD);
    string_of(&out)
}

/// The windows of a padded text that `generate_ngrams` yields: the `N_NGRAM` characters
/// starting at each position but the last two.
pub open spec fn raw_ngrams(p: Seq<char>) -> Seq<Seq<char>> {
    Seq::new((p.len() - 2) as nat, |i: int| p.subrange(i, i + 3))
}

/// The windows of a padded text.
pub fn generate_ngrams(padded_str: &str) -> (ngrams: Vec<String>)
    requires
        padded_str@.len() >= 3,
    ensures
        views(ngrams@) == raw_ngrams(padded_str@),
{
    let p = chars_of(padded_str);
    let count = p.len();
    let mut out: Vec<String> = Vec::new();
    let mut i: usize = 0;
    while i < count - N_NGRAM + 1
        invariant
            p@ == padded_str@,
            count == p.len(),
            count >= 3,
            i <= count - 2,
            views(out@) == raw_ngrams(p@).take(i as int),
        decreases count - i,
    {
        let end = i + N_NGRAM;
        let mut w: Vec<char> = Vec::new();
        let mut k: usize = i;
        while k < end
            invariant
                i <= k <= end <= count,
                count == p.len(),
                w@ == p@.subrange(i as int, k as int),
            decreases end - k,
        {
            w.push(p[k]);
            k = k + 1;
        }
        let s = string_of(&w);
        out.push(s);
        assert(views(out@) == views(out@.drop_last()).push(s@));
        i = i + 1;
        assert(raw_ngrams(p@).take(i as int) == raw_ngrams(p@).take(i - 1).push(raw_ngrams(p@)[i - 1]));
    }
    assert(raw_ngrams(p@).take(raw_ngrams(p@).len() as int) == raw_ngrams(p@));
    out
}

/// The characters of an n-gram in ascending order.
pub fn sort_ngram(ngram: &str) -> (sorted: String)
    ensures
        sorted@ == sort_chars(ngram@),
        sorted_by(sorted@, char_leq()),
        sorted@.to_multiset() == ngram@.to_multiset(),
{
    broadcast use group_to_multiset_ensures;
    let chars = chars_of(ngram);
    let mut out: Vec<char> = Vec::new();
    let mut i: usize = 0;
    while i < chars.len()
        invariant
            i <= chars.len(),
            sorted_by(out@, char_leq()),
            out@.to_multiset() == chars@.take(i as int).to_multiset(),
        decreases chars.len() - i,
    {
        let x = chars[i];
        let mut p: usize = 0;
        while p < out.len() && out[p] <= x
            invariant
                p <= out.len(),
                forall|k: int| 0 <= k < p ==> out@[k] <= x,
            decreases out.len() - p,
        {
            p = p + 1;
        }
        assert(forall|k: int| p <= k < out.len() ==> x < out@[k]) by {
            assert(sorted_by(out@, char_leq()));
            if p < out.len() {
                assert(x < out@[p as int]);
                assert forall|k: int| p <= k < out.len() implies x < out@[k] by {
                    if k > p {
                        assert(char_leq()(out@[p as int], out@[k]));
                    }
                }
            }
        }
        let ghost before = out@;
        out.insert(p, x);
        assert(out@ == before.insert(p as int, x));
        proof {
            vstd::seq_lib::to_multiset_insert(before, p as int, x);
            vstd::seq_lib::to_multiset_build(chars@.take(i as int), x);
        }
        assert(sorted_by(out@, char_leq())) by {
            assert forall|a: int, b: int| 0 <= a < b < out@.len() implies #[trigger] char_leq()(out@[a], out@[b]) by {
                if b < p {
                    assert(char_leq()(before[a], before[b]));
                } else if a > p {
                    assert(char_leq()(before[a - 1], before[b - 1]));
                } else if a < p && b > p {
                    assert(before[a] <= x);
                    assert(x < before[b - 1]);
                }
            }
        }
        assert(chars@.take(i + 1) == chars@.take(i as int).push(x));
        i = i + 1;
    }
    assert(chars@.take(chars.len() as int) == chars@);
    proof {
        lemma_char_leq_total();
        chars@.lemma_sort_by_ensures(char_leq());
        lemma_sorted_unique(out@, sort_chars(chars@), char_leq());
    }
    string_of(&out)
}

} // verus!
verus! {

/// How many times `x` occurs in `s`.
pub open spec fn occurrences(s: Seq<Seq<char>>, x: Seq<char>) -> nat
    decreases s.len(),
{
    if s.len() == 0 {
        0
    } else {
        occurrences(s.drop_last(), x) + if s.last() == x { 1nat } else { 0nat }
    }
}

/// The position of the last entry of `r` whose key is `g`, or -1 when there is none.
pub open spec fn key_index(r: Seq<(Seq<char>, nat)>, g: Seq<char>) -> int
    decreases r.len(),
{
    if r.len() == 0 {
        -1
    } else if r.last().0 == g {
        r.len() - 1
    } else {
        key_index(r.drop_last(), g)
    }
}

/// The tally of a list: each distinct element once, in order of first occurrence, with the
/// number of times it occurs.
pub open spec fn tally(list: Seq<Seq<char>>) -> Seq<(Seq<char>, nat)>
    decreases list.len(),
{
    if list.len() == 0 {
        Seq::empty()
    } else {
        let r = tally(list.drop_last());
        let g = list.last();
        let k = key_index(r, g);
        if k >= 0 {
            r.update(k, (g, r[k].1 + 1))
        } else {
            r.push((g, 1nat))
        }
    }
}

/// The keys of a tally are pairwise distinct.
pub open spec fn distinct_keys(r: Seq<(Seq<char>, nat)>) -> bool {
    forall|i: int, j: int| 0 <= i < j < r.len() ==> r[i].0 != r[j].0
}

/// The sum of the counts of a tally.
pub open spec fn total_count(r: Seq<(Seq<char>, nat)>) -> nat
    decreases r.len(),
{
    if r.len() == 0 {
        0
    } else {
        total_count(r.drop_last()) + r.last().1
    }
}

/// A tally seen as plain values.
pub open spec fn tally_view(v: Seq<(Ngram, Frequency)>) -> Seq<(Seq<char>, nat)> {
    v.map_values(|e: (Ngram, Frequency)| (e.0@, e.1 as nat))
}

pub proof fn lemma_key_index(r: Seq<(Seq<char>, nat)>, g: Seq<char>)
    ensures
        -1 <= key_index(r, g) < r.len(),
        key_index(r, g) >= 0 ==> r[key_index(r, g)].0 == g,
        key_index(r, g) >= 0 ==> forall|m: int| key_index(r, g) < m < r.len() ==> r[m].0 != g,
        key_index(r, g) == -1 <==> forall|m: int| 0 <= m < r.len() ==> r[m].0 != g,
    decreases r.len(),
{
    if r.len() > 0 {
        lemma_key_index(r.drop_last(), g);
        assert(forall|m: int| 0 <= m < r.len() - 1 ==> r.drop_last()[m] == r[m]);
    }
}

pub proof fn lemma_occurrences_absent(s: Seq<Seq<char>>, x: Seq<char>)
    requires
        !s.contains(x),
    ensures
        occurrences(s, x) == 0,
    decreases s.len(),
{
    if s.len() > 0 {
        assert(s[s.len() - 1] == s.last());
        assert(!s.drop_last().contains(x)) by {
            if s.drop_last().contains(x) {
                let m = choose|m: int| 0 <= m < s.len() - 1 && s.drop_last()[m] == x;
                assert(s[m] == x);
            }
        }
        lemma_occurrences_absent(s.drop_last(), x);
    }
}

pub proof fn lemma_total_count_update(r: Seq<(Seq<char>, nat)>, k: int, e: (Seq<char>, nat))
    requires
        0 <= k < r.len(),
    ensures
        total_count(r.update(k, e)) == total_count(r) - r[k].1 + e.1,
    decreases r.len(),
{
    if k < r.len() - 1 {
        lemma_total_count_update(r.drop_last(), k, e);
        assert(r.update(k, e).drop_last() == r.drop_last().update(k, e));
    } else {
        assert(r.update(k, e).drop_last() == r.drop_last());
    }
}

/// What a tally holds: distinct keys, each with its number of occurrences, every element of
/// the list among the keys, no key that is not an element, and counts that sum to the length.
pub proof fn lemma_tally(list: Seq<Seq<char>>)
    ensures
        distinct_keys(tally(list)),
        forall|i: int| 0 <= i < tally(list).len() ==> #[trigger] tally(list)[i].1 == occurrences(list, tally(list)[i].0),
        forall|i: int| 0 <= i < tally(list).len() ==> #[trigger] tally(list)[i].1 >= 1,
        forall|i: int| 0 <= i < tally(list).len() ==> list.contains(#[trigger] tally(list)[i].0),
        forall|x: Seq<char>| list.contains(x) ==> key_index(tally(list), x) >= 0,
        forall|x: Seq<char>| !list.contains(x) ==> key_index(tally(list), x) == -1,
        total_count(tally(list)) == list.len(),
        tally(list).len() <= list.len(),
    decreases list.len(),
{
    if list.len() > 0 {
        let p = list.drop_last();
        lemma_tally(p);
        let r = tally(p);
        let g = list.last();
        lemma_key_index(r, g);
        let k = key_index(r, g);
        assert forall|x: Seq<char>| #[trigger] list.contains(x) <==> p.contains(x) || x == g by {
            if list.contains(x) && x != g {
                let m = choose|m: int| 0 <= m < list.len() && list[m] == x;
                assert(p[m] == x);
            }
            if p.contains(x) {
                let m = choose|m: int| 0 <= m < p.len() && p[m] == x;
                assert(list[m] == x);
            }
            if x == g {
                assert(list[list.len() - 1] == x);
            }
        }
        let t = tally(list);
        if k >= 0 {
            assert(t == r.update(k, (g, r[k].1 + 1)));
            lemma_total_count_update(r, k, (g, r[k].1 + 1));
            assert forall|x: Seq<char>| list.contains(x) implies key_index(t, x) >= 0 by {
                lemma_key_index(t, x);
                if x == g {
                    assert(t[k].0 == x);
                } else {
                    lemma_key_index(r, x);
                    assert(t[key_index(r, x)].0 == x);
                }
            }
            assert forall|x: Seq<char>| !list.contains(x) implies key_index(t, x) == -1 by {
                lemma_key_index(t, x);
                lemma_key_index(r, x);
            }
        } else {
            assert(t == r.push((g, 1nat)));
            assert(t.drop_last() == r);
            assert forall|x: Seq<char>| list.contains(x) implies key_index(t, x) >= 0 by {
                lemma_key_index(t, x);
                if x != g {
                    lemma_key_index(r, x);
                    assert(t[key_index(r, x)].0 == x);
                }
            }
            assert forall|x: Seq<char>| !list.contains(x) implies key_index(t, x) == -1 by {
                lemma_key_index(t, x);
                lemma_key_index(r, x);
            }
            assert(!p.contains(g));
            lemma_occurrences_absent(p, g);
            assert forall|i: int| 0 <= i < t.len() implies #[trigger] t[i].1 == occurrences(list, t[i].0) by {
                if i < r.len() {
                    assert(r[i].0 != g);
                    assert(r[i].1 == occurrences(p, r[i].0));
                } else {
                    assert(t[i] == (g, 1nat));
                }
            }
        }
    }
}

pub proof fn lemma_occurrences_bound(s: Seq<Seq<char>>, x: Seq<char>)
    ensures
        occurrences(s, x) <= s.len(),
    decreases s.len(),
{
    if s.len() > 0 {
        lemma_occurrences_bound(s.drop_last(), x);
    }
}

/// The position of the entry whose key is `g`, found from the end.
fn find_key(entries: &Vec<(Ngram, Frequency)>, g: &String) -> (k: Option<usize>)
    ensures
        match k {
            Some(k) => k < entries.len() && k as int == key_index(tally_view(entries@), g@),
            None => key_index(tally_view(entries@), g@) == -1,
        },
{
    let ghost v = tally_view(entries@);
    proof {
        lemma_key_index(v, g@);
    }
    let mut j: usize = entries.len();
    while j > 0
        invariant
            j <= entries.len(),
            v == tally_view(entries@),
            -1 <= key_index(v, g@) < v.len(),
            key_index(v, g@) >= 0 ==> v[key_index(v, g@)].0 == g@,
            key_index(v, g@) >= 0 ==> forall|m: int| key_index(v, g@) < m < v.len() ==> v[m].0 != g@,
            key_index(v, g@) == -1 <==> forall|m: int| 0 <= m < v.len() ==> v[m].0 != g@,
            forall|m: int| j <= m < v.len() ==> v[m].0 != g@,
        decreases j,
    {
        if entries[j - 1].0.0 == *g {
            assert(v[j - 1].0 == g@);
            return Some(j - 1);
        }
        j = j - 1;
    }
    None
}

/// Counts each distinct n-gram of a list, in order of first occurrence.
pub fn count_ngrams(list: &Vec<String>) -> (counts: Vec<(Ngram, Frequency)>)
    ensures
        tally_view(counts@) == tally(views(list@)),
{
    let mut entries: Vec<(Ngram, Frequency)> = Vec::new();
    let mut i: usize = 0;
    while i < list.len()
        invariant
            i <= list.len(),
            tally_view(entries@) == tally(views(list@.take(i as int))),
        decreases list.len() - i,
    {
        let ghost prefix = views(list@.take(i as int));
        assert(views(list@.take(i + 1)) == prefix.push(list@[i as int]@));
        assert(views(list@.take(i + 1)).drop_last() == prefix);
        proof {
            lemma_tally(prefix);
        }
        match find_key(&entries, &list[i]) {
            Some(k) => {
                let ghost r = tally(prefix);
                proof {
                    lemma_key_index(r, list@[i as int]@);
                    lemma_occurrences_bound(prefix, list@[i as int]@);
                    assert(r[k as int].1 == occurrences(prefix, r[k as int].0));
                    assert(tally_view(entries@)[k as int] == r[k as int]);
                }
                let c = entries[k].1;
                let key = entries[k].0.0.clone();
                let ghost old_entries = entries@;
                entries.set(k, (Ngram(key), c + 1));
                assert(tally_view(entries@) =~= tally_view(old_entries).update(k as int, (list@[i as int]@, (c + 1) as nat)));
                assert(tally_view(entries@) =~= tally(views(list@.take(i + 1))));
            },
            None => {
                let key = list[i].clone();
                let ghost old_entries = entries@;
                entries.push((Ngram(key), 1));
                assert(tally_view(entries@) =~= tally_view(old_entries).push((list@[i as int]@, 1nat)));
                assert(tally_view(entries@) =~= tally(views(list@.take(i + 1))));
            },
        }
        i = i + 1;
    }
    assert(list@.take(list.len() as int) == list@);
    entries
}

} // verus!
verus! {

/// The tokens that a text is indexed by: its space-separated tokens, cleaned and filtered,
/// or a single empty token when none is left.
pub open spec fn analysis_tokens(text: Seq<char>) -> Seq<Seq<char>> {
    let f = filter_spec(split_spec(text, ' '));
    if f.len() == 0 {
        seq![Seq::<char>::empty()]
    } else {
        f
    }
}

/// The padded tokens of a text, one after the other.
pub open spec fn padded_text(text: Seq<char>) -> Seq<char> {
    analysis_tokens(text).map_values(|t: Seq<char>| pad_spec(t)).flatten()
}

/// What becomes of a window: dropped when it ends with `^`, kept as it is when it holds a
/// `^`, otherwise its characters sorted.
pub open spec fn normalize_ngram(g: Seq<char>) -> Option<Seq<char>> {
    if g.len() > 0 && g.last() == LEFT_PAD {
        None
    } else if g.contains(LEFT_PAD) {
        Some(g)
    } else {
        Some(sort_chars(g))
    }
}

pub open spec fn normalizer() -> spec_fn(Seq<char>) -> Option<Seq<char>> {
    |g: Seq<char>| normalize_ngram(g)
}

/// The n-grams of a text, in order, with repetitions.
pub open spec fn ngram_list(text: Seq<char>) -> Seq<Seq<char>> {
    raw_ngrams(padded_text(text)).filter_map(normalizer())
}

/// How often `g` is counted in a tally: its entry's count, or 0 when it has none.
pub open spec fn tally_count(r: Seq<(Seq<char>, nat)>, g: Seq<char>) -> nat {
    if key_index(r, g) >= 0 {
        r[key_index(r, g)].1
    } else {
        0
    }
}

/// A tally counts each element as often as it occurs in the list.
pub proof fn lemma_tally_count(list: Seq<Seq<char>>, g: Seq<char>)
    ensures
        tally_count(tally(list), g) == occurrences(list, g),
{
    lemma_tally(list);
    lemma_key_index(tally(list), g);
    if list.contains(g) {
        let k = key_index(tally(list), g);
        assert(tally(list)[k].1 == occurrences(list, tally(list)[k].0));
    } else {
        lemma_occurrences_absent(list, g);
    }
}

proof fn lemma_occurrences_concat(a: Seq<Seq<char>>, b: Seq<Seq<char>>, g: Seq<char>)
    ensures
        occurrences(a + b, g) == occurrences(a, g) + occurrences(b, g),
    decreases b.len(),
{
    if b.len() == 0 {
        assert(a + b =~= a);
    } else {
        lemma_occurrences_concat(a, b.drop_last(), g);
        assert((a + b).drop_last() =~= a + b.drop_last());
        assert((a + b).last() == b.last());
    }
}

proof fn lemma_filter_map_concat(a: Seq<Seq<char>>, b: Seq<Seq<char>>, f: spec_fn(Seq<char>) -> Option<Seq<char>>)
    ensures
        (a + b).filter_map(f) == a.filter_map(f) + b.filter_map(f),
    decreases b.len(),
{
    if b.len() == 0 {
        assert(a + b =~= a);
        assert(a.filter_map(f) + b.filter_map(f) =~= a.filter_map(f));
    } else {
        lemma_filter_map_concat(a, b.drop_last(), f);
        assert((a + b).drop_last() =~= a + b.drop_last());
        assert((a + b).last() == b.last());
        match f(b.last()) {
            Some(x) => {
                assert(a.filter_map(f) + b.drop_last().filter_map(f) + seq![x] =~= a.filter_map(f) + (
                b.drop_last().filter_map(f) + seq![x]));
            },
            None => {},
        }
    }
}

/// The windows of two padded texts one after the other: those of the first, the two that
/// straddle the join, and those of the second.
proof fn lemma_raw_ngrams_concat(p1: Seq<char>, p2: Seq<char>)
    requires
        p1.len() >= 2,
        p2.len() >= 2,
    ensures
        raw_ngrams(p1 + p2) == raw_ngrams(p1) + seq![
            (p1 + p2).subrange(p1.len() - 2, p1.len() + 1 as int),
            (p1 + p2).subrange(p1.len() - 1, p1.len() + 2 as int),
        ] + raw_ngrams(p2),
{
    let q = p1 + p2;
    let n1 = p1.len() as int;
    let rhs = raw_ngrams(p1) + seq![q.subrange(n1 - 2, n1 + 1), q.subrange(n1 - 1, n1 + 2)] + raw_ngrams(p2);
    assert(raw_ngrams(q).len() == rhs.len());
    assert forall|i: int| 0 <= i < rhs.len() implies raw_ngrams(q)[i] == rhs[i] by {
        if i < n1 - 2 {
            assert(q.subrange(i, i + 3) =~= p1.subrange(i, i + 3));
        } else if i >= n1 {
            assert(q.subrange(i, i + 3) =~= p2.subrange(i - n1, i - n1 + 3));
        }
    }
    assert(raw_ngrams(q) =~= rhs);
}

proof fn lemma_word_has_no_space(w: Seq<char>)
    requires
        is_lowercase_word(w),
    ensures
        !w.contains(' '),
{
    if w.contains(' ') {
        let k = choose|k: int| 0 <= k < w.len() && w[k] == ' ';
        assert(97 <= (w[k] as u32) <= 122);
    }
}

/// A lower-case word that is no stop word is its own one token, padded once.
proof fn lemma_word_padded(w: Seq<char>)
    requires
        is_lowercase_word(w),
        !is_stopword(w),
    ensures
        analysis_tokens(w) == seq![w],
        padded_text(w) == pad_spec(w),
{
    lemma_word_has_no_space(w);
    lemma_split_no_sep(w, ' ');
    lemma_punctuation_filter_word(w);
    assert(seq![w].drop_last() =~= Seq::<Seq<char>>::empty());
    assert(seq![w].last() == w);
    assert(filter_spec(Seq::<Seq<char>>::empty()) == Seq::<Seq<char>>::empty());
    assert(filter_spec(seq![w]) =~= seq![w]);
    let padded = seq![w].map_values(|t: Seq<char>| pad_spec(t));
    assert(padded =~= seq![pad_spec(w)]);
    padded.lemma_flatten_one_element();
}

/// Two lower-case words joined by a space are their two tokens, padded one after the other.
proof fn lemma_two_words_padded(w1: Seq<char>, w2: Seq<char>)
    requires
        is_lowercase_word(w1),
        is_lowercase_word(w2),
        !is_stopword(w1),
        !is_stopword(w2),
    ensures
        analysis_tokens(w1 + seq![' '] + w2) == seq![w1, w2],
        padded_text(w1 + seq![' '] + w2) == pad_spec(w1) + pad_spec(w2),
{
    let t = w1 + seq![' '] + w2;
    lemma_word_has_no_space(w1);
    lemma_word_has_no_space(w2);
    lemma_split_no_sep(w1, ' ');
    lemma_split_append(w1, w2, ' ');
    assert(t =~= w1.push(' ') + w2);
    assert(split_spec(t, ' ') =~= seq![w1, w2]);
    lemma_punctuation_filter_word(w1);
    lemma_punctuation_filter_word(w2);
    assert(seq![w1, w2].drop_last() =~= seq![w1]);
    assert(seq![w1].drop_last() =~= Seq::<Seq<char>>::empty());
    assert(seq![w1].last() == w1);
    assert(seq![w1, w2].last() == w2);
    assert(filter_spec(Seq::<Seq<char>>::empty()) == Seq::<Seq<char>>::empty());
    assert(filter_spec(seq![w1]) =~= seq![w1]);
    assert(filter_spec(seq![w1, w2]) =~= seq![w1, w2]);
    let padded = seq![w1, w2].map_values(|t: Seq<char>| pad_spec(t));
    assert(padded =~= seq![pad_spec(w1)] + seq![pad_spec(w2)]);
    vstd::seq_lib::lemma_flatten_concat(seq![pad_spec(w1)], seq![pad_spec(w2)]);
    seq![pad_spec(w1)].lemma_flatten_one_element();
    seq![pad_spec(w2)].lemma_flatten_one_element();
}

/// Analyzing two words of lower-case letters joined by a space, neither a stop word, gives
/// the n-grams of the first word and then those of the second: no n-gram spans the space,
/// so each n-gram is counted as often as in the two words' analyses together.
pub proof fn lemma_two_words_add_up(w1: Seq<char>, w2: Seq<char>)
    requires
        is_lowercase_word(w1),
        is_lowercase_word(w2),
        !is_stopword(w1),
        !is_stopword(w2),
    ensures
        ngram_list(w1 + seq![' '] + w2) == ngram_list(w1) + ngram_list(w2),
        forall|g: Seq<char>| #[trigger] tally_count(tally(ngram_list(w1 + seq![' '] + w2)), g) == tally_count(
            tally(ngram_list(w1)),
            g,
        ) + tally_count(tally(ngram_list(w2)), g),
{
    let t = w1 + seq![' '] + w2;
    lemma_word_padded(w1);
    lemma_word_padded(w2);
    lemma_two_words_padded(w1, w2);
    let p1 = pad_spec(w1);
    let p2 = pad_spec(w2);
    let q = p1 + p2;
    let n1 = p1.len() as int;
    lemma_raw_ngrams_concat(p1, p2);
    let mid = seq![q.subrange(n1 - 2, n1 + 1), q.subrange(n1 - 1, n1 + 2)];
    let f = normalizer();
    assert(q[n1] == LEFT_PAD && q[n1 + 1] == LEFT_PAD);
    assert(q.subrange(n1 - 2, n1 + 1).last() == LEFT_PAD);
    assert(q.subrange(n1 - 1, n1 + 2).last() == LEFT_PAD);
    assert(f(mid[0]) is None);
    assert(f(mid[1]) is None);
    assert(mid.drop_last() =~= seq![mid[0]]);
    assert(seq![mid[0]].drop_last() =~= Seq::<Seq<char>>::empty());
    Seq::<Seq<char>>::lemma_filter_map_singleton(mid[0], f);
    assert(mid.filter_map(f) =~= Seq::<Seq<char>>::empty());
    lemma_filter_map_concat(raw_ngrams(p1) + mid, raw_ngrams(p2), f);
    lemma_filter_map_concat(raw_ngrams(p1), mid, f);
    assert(ngram_list(t) =~= ngram_list(w1) + ngram_list(w2));
    assert forall|g: Seq<char>| #[trigger] tally_count(tally(ngram_list(t)), g) == tally_count(tally(ngram_list(w1)), g)
        + tally_count(tally(ngram_list(w2)), g) by {
        lemma_tally_count(ngram_list(t), g);
        lemma_tally_count(ngram_list(w1), g);
        lemma_tally_count(ngram_list(w2), g);
        lemma_occurrences_concat(ngram_list(w1), ngram_list(w2), g);
    }
}

/// The order of two such words does not change how often each n-gram is counted.
pub proof fn lemma_two_words_commute(w1: Seq<char>, w2: Seq<char>)
    requires
        is_lowercase_word(w1),
        is_lowercase_word(w2),
        !is_stopword(w1),
        !is_stopword(w2),
    ensures
        forall|g: Seq<char>| #[trigger] tally_count(tally(ngram_list(w1 + seq![' '] + w2)), g) == tally_count(
            tally(ngram_list(w2 + seq![' '] + w1)),
            g,
        ),
{
    lemma_two_words_add_up(w1, w2);
    lemma_two_words_add_up(w2, w1);
}

/// Whether a sequence of characters holds `c`.
fn holds_char(v: &Vec<char>, c: char) -> (b: bool)
    ensures
        b == v@.contains(c),
{
    let mut i: usize = 0;
    while i < v.len()
        invariant
            i <= v.len(),
            forall|j: int| 0 <= j < i ==> v@[j] != c,
        decreases v.len() - i,
    {
        if v[i] == c {
            assert(v@[i as int] == c);
            return true;
        }
        i = i + 1;
    }
    false
}

/// The n-gram that a window becomes, if any.
fn normalize(window: &String) -> (r: Option<String>)
    ensures
        match r {
            Some(s) => normalize_ngram(window@) == Some(s@),
            None => normalize_ngram(window@).is_none(),
        },
{
    let w = chars_of(window.as_str());
    if w.len() > 0 && w[w.len() - 1] == LEFT_PAD {
        None
    } else if holds_char(&w, LEFT_PAD) {
        Some(window.clone())
    } else {
        Some(sort_ngram(window.as_str()))
    }
}

/// Counts the n-grams of a text: its tokens are cleaned and filtered, padded, cut into
/// windows of three characters, and each window is dropped, kept or sorted.
pub fn analyze(text: &str) -> (counts: Vec<(Ngram, Frequency)>)
    ensures
        tally_view(counts@) == tally(ngram_list(text@)),
        distinct_keys(tally_view(counts@)),
        ngram_list(text@).len() <= usize::MAX,
{
    let mut tokens = filter(tokenize(text));
    if tokens.len() == 0 {
        tokens.push(String::new());
        assert(views(tokens@) =~= seq![Seq::<char>::empty()]);
    }
    let ghost toks = analysis_tokens(text@);
    assert(views(tokens@) == toks);
    let mut padded: Vec<char> = Vec::new();
    let mut i: usize = 0;
    while i < tokens.len()
        invariant
            i <= tokens.len(),
            views(tokens@) == toks,
            tokens.len() >= 1,
            padded@ == toks.take(i as int).map_values(|t: Seq<char>| pad_spec(t)).flatten(),
            i >= 1 ==> padded@.len() >= 3,
        decreases tokens.len() - i,
    {
        let p = chars_of(pad(&tokens[i]).as_str());
        let mut k: usize = 0;
        let ghost before = padded@;
        while k < p.len()
            invariant
                k <= p.len(),
                padded@ == before + p@.take(k as int),
            decreases p.len() - k,
        {
            padded.push(p[k]);
            k = k + 1;
            assert(p@.take(k as int) == p@.take(k - 1).push(p@[k - 1]));
        }
        assert(p@.take(p.len() as int) == p@);
        proof {
            let m = toks.take(i as int).map_values(|t: Seq<char>| pad_spec(t));
            assert(toks.take(i + 1).map_values(|t: Seq<char>| pad_spec(t)) == m.push(pad_spec(toks[i as int])));
            m.lemma_flatten_push(pad_spec(toks[i as int]));
        }
        i = i + 1;
    }
    assert(toks.take(tokens.len() as int) == toks);
    let padded_str = string_of(&padded);
    let windows = generate_ngrams(padded_str.as_str());
    let ghost raw = raw_ngrams(padded@);
    let mut list: Vec<String> = Vec::new();
    let mut j: usize = 0;
    while j < windows.len()
        invariant
            j <= windows.len(),
            views(windows@) == raw,
            views(list@) == raw.take(j as int).filter_map(normalizer()),
        decreases windows.len() - j,
    {
        assert(raw.take(j + 1).drop_last() == raw.take(j as int));
        assert(raw.take(j + 1).last() == windows@[j as int]@);
        match normalize(&windows[j]) {
            Some(g) => {
                list.push(g);
                assert(views(list@) == views(list@.drop_last()).push(list@.last()@));
            },
            None => {},
        }
        j = j + 1;
    }
    assert(raw.take(windows.len() as int) == raw);
    let n = list.len();
    assert(views(list@).len() == n);
    assert(padded@ == padded_text(text@));
    assert(views(list@) == ngram_list(text@));
    proof {
        lemma_tally(ngram_list(text@));
    }
    count_ngrams(&list)
}

} // verus!
verus! {

/// The map that a list of key-value pairs stands for: a later pair wins over an earlier one
/// with the same key.
pub open spec fn assoc_map<K, V>(s: Seq<(K, V)>) -> Map<K, V>
    decreases s.len(),
{
    if s.len() == 0 {
        Map::empty()
    } else {
        assoc_map(s.drop_last()).insert(s.last().0, s.last().1)
    }
}

/// No two pairs share a key.
pub open spec fn keys_distinct<K, V>(s: Seq<(K, V)>) -> bool {
    forall|i: int, j: int| 0 <= i < j < s.len() ==> s[i].0 != s[j].0
}

pub proof fn lemma_assoc_map<K, V>(s: Seq<(K, V)>)
    ensures
        forall|k: K| #[trigger] assoc_map(s).dom().contains(k) <==> exists|i: int| 0 <= i < s.len() && s[i].0 == k,
        keys_distinct(s) ==> forall|i: int| 0 <= i < s.len() ==> #[trigger] assoc_map(s)[s[i].0] == s[i].1,
    decreases s.len(),
{
    if s.len() > 0 {
        let p = s.drop_last();
        lemma_assoc_map(p);
        assert(assoc_map(s) == assoc_map(p).insert(s.last().0, s.last().1));
        assert forall|k: K| #[trigger] assoc_map(s).dom().contains(k) <==> exists|i: int| 0 <= i < s.len() && s[i].0 == k by {
            if k == s.last().0 {
                assert(s[s.len() - 1].0 == k);
            }
            if assoc_map(s).dom().contains(k) && k != s.last().0 {
                assert(assoc_map(p).dom().contains(k));
                let i = choose|i: int| 0 <= i < p.len() && p[i].0 == k;
                assert(s[i].0 == k);
            }
            if exists|i: int| 0 <= i < s.len() && s[i].0 == k {
                let i = choose|i: int| 0 <= i < s.len() && s[i].0 == k;
                if i < p.len() {
                    assert(p[i].0 == k);
                    assert(assoc_map(p).dom().contains(k));
                }
            }
        }
        if keys_distinct(s) {
            assert(keys_distinct(p));
            assert forall|i: int| 0 <= i < s.len() implies #[trigger] assoc_map(s)[s[i].0] == s[i].1 by {
                if i < p.len() {
                    assert(p[i] == s[i]);
                    assert(s[i].0 != s.last().0);
                }
            }
        }
    }
}

pub proof fn lemma_assoc_map_update<K, V>(s: Seq<(K, V)>, i: int, v: V)
    requires
        keys_distinct(s),
        0 <= i < s.len(),
    ensures
        assoc_map(s.update(i, (s[i].0, v))) == assoc_map(s).insert(s[i].0, v),
    decreases s.len(),
{
    let t = s.update(i, (s[i].0, v));
    if i == s.len() - 1 {
        assert(t.drop_last() == s.drop_last());
        lemma_assoc_map(s.drop_last());
        assert(!assoc_map(s.drop_last()).dom().contains(s[i].0)) by {
            if assoc_map(s.drop_last()).dom().contains(s[i].0) {
                let j = choose|j: int| 0 <= j < s.len() - 1 && s.drop_last()[j].0 == s[i].0;
                assert(s[j].0 == s[i].0);
            }
        }
        assert(assoc_map(t) =~= assoc_map(s).insert(s[i].0, v));
    } else {
        let p = s.drop_last();
        assert(keys_distinct(p));
        lemma_assoc_map_update(p, i, v);
        assert(t.drop_last() == p.update(i, (p[i].0, v)));
        assert(s.last().0 != s[i].0);
        assert(assoc_map(t) =~= assoc_map(s).insert(s[i].0, v));
    }
}

} // verus!
verus! {

/// An inverted index: each n-gram with the documents, by position, that it occurs in and
/// how many times it occurs there.
pub type InverseIndex = Vec<(Ngram, Vec<(usize, Frequency)>)>;

/// Postings seen as plain values.
pub open spec fn postings_pairs(p: Seq<(usize, Frequency)>) -> Seq<(usize, nat)> {
    p.map_values(|e: (usize, Frequency)| (e.0, e.1 as nat))
}

/// Postings seen as a map from document to frequency.
pub open spec fn postings_view(p: Seq<(usize, Frequency)>) -> Map<usize, nat> {
    assoc_map(postings_pairs(p))
}

/// An inverted index seen as plain values.
pub open spec fn inverse_pairs(inv: Seq<(Ngram, Vec<(usize, Frequency)>)>) -> Seq<(Seq<char>, Map<usize, nat>)> {
    inv.map_values(|e: (Ngram, Vec<(usize, Frequency)>)| (e.0@, postings_view(e.1@)))
}

/// An inverted index seen as a map from n-gram to documents and frequencies.
pub open spec fn inverse_view(inv: Seq<(Ngram, Vec<(usize, Frequency)>)>) -> Map<Seq<char>, Map<usize, nat>> {
    assoc_map(inverse_pairs(inv))
}

/// An inverted index names each n-gram once and each document once per n-gram.
pub open spec fn inverse_wf(inv: Seq<(Ngram, Vec<(usize, Frequency)>)>) -> bool {
    &&& keys_distinct(inverse_pairs(inv))
    &&& forall|i: int| 0 <= i < inv.len() ==> keys_distinct(#[trigger] postings_pairs(inv[i].1@))
}

/// The counts of a document seen as a map from n-gram to frequency.
pub open spec fn doc_map(d: Seq<(Ngram, Frequency)>) -> Map<Seq<char>, nat> {
    assoc_map(tally_view(d))
}

/// The counts of each document of an index.
pub open spec fn doc_maps(index: Seq<Vec<(Ngram, Frequency)>>) -> Seq<Map<Seq<char>, nat>> {
    index.map_values(|d: Vec<(Ngram, Frequency)>| doc_map(d@))
}

/// `m` inverts `docs`: document `u` is listed under n-gram `g` exactly when `g` occurs in
/// document `u`, with the same frequency, and no n-gram is listed without a document.
pub open spec fn inverts(m: Map<Seq<char>, Map<usize, nat>>, docs: Seq<Map<Seq<char>, nat>>) -> bool {
    &&& forall|g: Seq<char>, u: usize|
        #![trigger m[g].dom().contains(u)]
        #![trigger docs[u as int].dom().contains(g)]
        (m.dom().contains(g) && m[g].dom().contains(u)) <==> (u < docs.len() && docs[u as int].dom().contains(g))
    &&& forall|g: Seq<char>, u: usize|
        #![trigger m[g][u]]
        m.dom().contains(g) && m[g].dom().contains(u) ==> m[g][u] == docs[u as int][g]
    &&& forall|g: Seq<char>| #[trigger] m.dom().contains(g) ==> exists|u: usize| m[g].dom().contains(u)
}

/// `m` inverts the documents before `t` and the part `e` of document `t`.
pub open spec fn inverts_partial(
    m: Map<Seq<char>, Map<usize, nat>>,
    docs: Seq<Map<Seq<char>, nat>>,
    t: usize,
    e: Map<Seq<char>, nat>,
) -> bool {
    &&& forall|g: Seq<char>, u: usize|
        #![trigger m[g].dom().contains(u)]
        #![trigger docs[u as int].dom().contains(g)]
        (m.dom().contains(g) && m[g].dom().contains(u)) <==> ((u < t && docs[u as int].dom().contains(g))
            || (u == t && e.dom().contains(g)))
    &&& forall|g: Seq<char>, u: usize|
        #![trigger m[g][u]]
        m.dom().contains(g) && m[g].dom().contains(u) ==> m[g][u] == if u < t { docs[u as int][g] } else { e[g] }
    &&& forall|g: Seq<char>| #[trigger] m.dom().contains(g) ==> exists|u: usize| m[g].dom().contains(u)
}

/// The position of the entry of an inverted index whose n-gram is `g`.
fn find_ngram(inv: &InverseIndex, g: &String) -> (k: Option<usize>)
    ensures
        match k {
            Some(k) => k < inv.len() && inv@[k as int].0@ == g@,
            None => forall|i: int| 0 <= i < inv.len() ==> inv@[i].0@ != g@,
        },
{
    let mut j: usize = 0;
    while j < inv.len()
        invariant
            j <= inv.len(),
            forall|i: int| 0 <= i < j ==> inv@[i].0@ != g@,
        decreases inv.len() - j,
    {
        if inv[j].0.0 == *g {
            return Some(j);
        }
        j = j + 1;
    }
    None
}

/// Turns the per-document counts into an index from n-gram to documents.
#[verifier::spinoff_prover]
pub fn invert_index(index: &Vec<Vec<(Ngram, Frequency)>>) -> (inv: InverseIndex)
    requires
        forall|t: int| 0 <= t < index.len() ==> keys_distinct(#[trigger] tally_view(index@[t]@)),
    ensures
        inverse_wf(inv@),
        inverts(inverse_view(inv@), doc_maps(index@)),
{
    let ghost docs = doc_maps(index@);
    let mut ret: InverseIndex = Vec::new();
    let mut t: usize = 0;
    assert(inverse_view(ret@) =~= Map::empty());
    while t < index.len()
        invariant
            t <= index.len(),
            docs == doc_maps(index@),
            forall|u: int| 0 <= u < index.len() ==> keys_distinct(#[trigger] tally_view(index@[u]@)),
            inverse_wf(ret@),
            inverts_partial(inverse_view(ret@), docs, t, Map::empty()),
        decreases index.len() - t,
    {
        let doc = &index[t];
        let ghost es = tally_view(doc@);
        let mut j: usize = 0;
        assert(assoc_map(es.take(0)) =~= Map::empty());
        while j < doc.len()
            invariant
                t < index.len(),
                j <= doc.len(),
                doc == index@[t as int],
                es == tally_view(doc@),
                keys_distinct(es),
                docs == doc_maps(index@),
                inverse_wf(ret@),
                inverts_partial(inverse_view(ret@), docs, t, assoc_map(es.take(j as int))),
            decreases doc.len() - j,
        {
            let g = &doc[j].0;
            let f = doc[j].1;
            let ghost m = inverse_view(ret@);
            let ghost e = assoc_map(es.take(j as int));
            let ghost e2 = assoc_map(es.take(j + 1));
            proof {
                assert(es.take(j + 1).drop_last() == es.take(j as int));
                assert(e2 == e.insert(g@, f as nat));
                lemma_assoc_map(es.take(j as int));
                assert(!e.dom().contains(g@)) by {
                    if e.dom().contains(g@) {
                        let i = choose|i: int| 0 <= i < j && es.take(j as int)[i].0 == g@;
                        assert(es[i].0 == es[j as int].0);
                    }
                }
            }
            match find_ngram(&ret, &g.0) {
                Some(k) => {
                    let ghost old_ret = ret@;
                    proof {
                        lemma_assoc_map(inverse_pairs(old_ret));
                        assert(inverse_pairs(old_ret)[k as int].0 == g@);
                        assert(m[g@] == postings_view(old_ret[k as int].1@));
                        lemma_assoc_map(postings_pairs(old_ret[k as int].1@));
                        assert(!m[g@].dom().contains(t));
                    }
                    ret[k].1.push((t, f));
                    proof {
                        let p_old = old_ret[k as int].1@;
                        let p_new = ret@[k as int].1@;
                        assert(p_new == p_old.push((t, f)));
                        assert(postings_pairs(p_new) == postings_pairs(p_old).push((t, f as nat)));
                        assert(postings_pairs(p_new).drop_last() == postings_pairs(p_old));
                        assert(postings_view(p_new) == postings_view(p_old).insert(t, f as nat));
                        assert(inverse_pairs(ret@) == inverse_pairs(old_ret).update(
                            k as int,
                            (g@, postings_view(p_new)),
                        ));
                        lemma_assoc_map_update(inverse_pairs(old_ret), k as int, postings_view(p_new));
                        assert(inverse_view(ret@) == m.insert(g@, m[g@].insert(t, f as nat)));
                        assert(keys_distinct(postings_pairs(p_new))) by {
                            lemma_assoc_map(postings_pairs(p_old));
                            assert forall|a: int, b: int| 0 <= a < b < postings_pairs(p_new).len() implies
                                postings_pairs(p_new)[a].0 != postings_pairs(p_new)[b].0 by {
                                if b == postings_pairs(p_old).len() {
                                    assert(postings_pairs(p_old)[a].0 != t);
                                } else {
                                    assert(postings_pairs(p_old)[a] == postings_pairs(p_new)[a]);
                                    assert(postings_pairs(p_old)[b] == postings_pairs(p_new)[b]);
                                }
                            }
                        }
                        assert forall|i: int| 0 <= i < ret@.len() implies keys_distinct(#[trigger] postings_pairs(ret@[i].1@)) by {
                            if i != k {
                                assert(ret@[i] == old_ret[i]);
                            }
                        }
                        assert(keys_distinct(inverse_pairs(ret@))) by {
                            assert forall|a: int, b: int| 0 <= a < b < ret@.len() implies
                                inverse_pairs(ret@)[a].0 != inverse_pairs(ret@)[b].0 by {
                                assert(inverse_pairs(ret@)[a].0 == inverse_pairs(old_ret)[a].0);
                                assert(inverse_pairs(ret@)[b].0 == inverse_pairs(old_ret)[b].0);
                            }
                        }
                    }
                },
                None => {
                    let ghost old_ret = ret@;
                    proof {
                        lemma_assoc_map(inverse_pairs(old_ret));
                        assert(!m.dom().contains(g@)) by {
                            if m.dom().contains(g@) {
                                let i = choose|i: int| 0 <= i < old_ret.len() && inverse_pairs(old_ret)[i].0 == g@;
                                assert(old_ret[i].0@ == g@);
                            }
                        }
                    }
                    let mut p: Vec<(usize, Frequency)> = Vec::new();
                    p.push((t, f));
                    ret.push((Ngram(g.0.clone()), p));
                    proof {
                        let p_new = ret@[ret@.len() - 1].1@;
                        assert(postings_pairs(p_new) == seq![(t, f as nat)]);
                        assert(postings_pairs(p_new).drop_last() == Seq::<(usize, nat)>::empty());
                        assert(assoc_map(Seq::<(usize, nat)>::empty()) =~= Map::<usize, nat>::empty());
                        assert(postings_view(p_new) == Map::<usize, nat>::empty().insert(t, f as nat));
                        assert(inverse_pairs(ret@) == inverse_pairs(old_ret).push((g@, postings_view(p_new))));
                        assert(inverse_pairs(ret@).drop_last() == inverse_pairs(old_ret));
                        assert(inverse_view(ret@) == m.insert(g@, Map::<usize, nat>::empty().insert(t, f as nat)));
                        assert forall|i: int| 0 <= i < ret@.len() implies keys_distinct(#[trigger] postings_pairs(ret@[i].1@)) by {
                            if i < old_ret.len() {
                                assert(ret@[i] == old_ret[i]);
                            }
                        }
                        assert(keys_distinct(inverse_pairs(ret@))) by {
                            assert forall|a: int, b: int| 0 <= a < b < ret@.len() implies
                                inverse_pairs(ret@)[a].0 != inverse_pairs(ret@)[b].0 by {
                                if b == old_ret.len() {
                                    assert(inverse_pairs(old_ret)[a].0 != g@);
                                } else {
                                    assert(inverse_pairs(ret@)[a].0 == inverse_pairs(old_ret)[a].0);
                                    assert(inverse_pairs(ret@)[b].0 == inverse_pairs(old_ret)[b].0);
                                }
                            }
                        }
                    }
                },
            }
            proof {
                let m2 = inverse_view(ret@);
                assert(forall|g2: Seq<char>| g2 != g@ ==> (#[trigger] m2.dom().contains(g2) <==> m.dom().contains(g2)));
                assert(forall|g2: Seq<char>| g2 != g@ && m.dom().contains(g2) ==> #[trigger] m2[g2] == m[g2]);
                assert(m2.dom().contains(g@) && m2[g@].dom().contains(t));
                assert forall|g2: Seq<char>, u: usize|
                    #![trigger m2[g2].dom().contains(u)]
                    #![trigger docs[u as int].dom().contains(g2)]
                    (m2.dom().contains(g2) && m2[g2].dom().contains(u)) <==> ((u < t && docs[u as int].dom().contains(g2))
                        || (u == t && e2.dom().contains(g2))) by {
                    if g2 != g@ {
                        if m.dom().contains(g2) {
                            assert(m[g2].dom().contains(u) <==> ((u < t && docs[u as int].dom().contains(g2)) || (u == t && e.dom().contains(g2))));
                        } else {
                            if u < t && docs[u as int].dom().contains(g2) {
                                assert(m.dom().contains(g2) && m[g2].dom().contains(u));
                            }
                            if u == t && e.dom().contains(g2) {
                                assert(m.dom().contains(g2) && m[g2].dom().contains(u));
                            }
                        }
                    } else {
                        if m.dom().contains(g2) {
                            assert(m[g2].dom().contains(u) <==> ((u < t && docs[u as int].dom().contains(g2)) || (u == t && e.dom().contains(g2))));
                        } else {
                            if u < t && docs[u as int].dom().contains(g2) {
                                assert(m.dom().contains(g2) && m[g2].dom().contains(u));
                            }
                        }
                    }
                }
                assert forall|g2: Seq<char>, u: usize|
                    m2.dom().contains(g2) && m2[g2].dom().contains(u) implies #[trigger] m2[g2][u] == if u < t { docs[u as int][g2] } else { e2[g2] } by {
                    if g2 != g@ || u != t {
                        assert(m.dom().contains(g2) && m[g2].dom().contains(u));
                        assert(m2[g2][u] == m[g2][u]);
                    }
                }
                assert forall|g2: Seq<char>| #[trigger] m2.dom().contains(g2) implies exists|u: usize| m2[g2].dom().contains(u) by {
                    if g2 == g@ {
                        assert(m2[g2].dom().contains(t));
                    } else {
                        let u = choose|u: usize| m[g2].dom().contains(u);
                        assert(m2[g2].dom().contains(u));
                    }
                }
                assert(inverts_partial(m2, docs, t, e2));
            }
            j = j + 1;
            assert(inverts_partial(inverse_view(ret@), docs, t, assoc_map(es.take(j as int))));
        }
        proof {
            assert(es.take(doc.len() as int) == es);
            assert(docs[t as int] == doc_map(doc@));
            let m = inverse_view(ret@);
            assert forall|g2: Seq<char>, u: usize|
                (m.dom().contains(g2) && #[trigger] m[g2].dom().contains(u)) <==> ((u < t + 1 && docs[u as int].dom().contains(g2))
                    || (u == t + 1 && Map::<Seq<char>, nat>::empty().dom().contains(g2))) by {
                assert((m.dom().contains(g2) && m[g2].dom().contains(u)) <==> ((u < t && docs[u as int].dom().contains(g2))
                    || (u == t && docs[t as int].dom().contains(g2))));
            }
            assert forall|g2: Seq<char>, u: usize|
                m.dom().contains(g2) && m[g2].dom().contains(u) implies #[trigger] m[g2][u] == if u < t + 1 { docs[u as int][g2] } else { Map::<Seq<char>, nat>::empty()[g2] } by {
                assert(m[g2][u] == if u < t { docs[u as int][g2] } else { docs[t as int][g2] });
            }
        }
        t = t + 1;
    }
    ret
}

} // verus!
verus! {

/// The counts of each document, by position.
pub fn generate_index(docs: &Vec<String>) -> (index: Vec<Vec<(Ngram, Frequency)>>)
    ensures
        index.len() == docs.len(),
        forall|t: int| 0 <= t < docs.len() ==> #[trigger] tally_view(index@[t]@) == tally(ngram_list(docs@[t]@)),
{
    let mut index: Vec<Vec<(Ngram, Frequency)>> = Vec::new();
    let mut t: usize = 0;
    while t < docs.len()
        invariant
            t <= docs.len(),
            index.len() == t,
            forall|u: int| 0 <= u < t ==> #[trigger] tally_view(index@[u]@) == tally(ngram_list(docs@[u]@)),
        decreases docs.len() - t,
    {
        index.push(analyze(docs[t].as_str()));
        t = t + 1;
    }
    index
}

/// The n-gram counts of each document, as a map.
pub open spec fn doc_tally_maps(docs: Seq<String>) -> Seq<Map<Seq<char>, nat>> {
    docs.map_values(|d: String| assoc_map(tally(ngram_list(d@))))
}

/// The inverted index of a list of documents, which are named by their positions.
pub fn generate_inverse_index(docs: &Vec<String>) -> (inv: InverseIndex)
    ensures
        inverse_wf(inv@),
        inverts(inverse_view(inv@), doc_tally_maps(docs@)),
{
    let index = generate_index(docs);
    assert forall|t: int| 0 <= t < index.len() implies keys_distinct(#[trigger] tally_view(index@[t]@)) by {
        lemma_tally(ngram_list(docs@[t]@));
    }
    assert(doc_maps(index@) =~= doc_tally_maps(docs@));
    invert_index(&index)
}

} // verus!
verus! {

/// What one n-gram of a query adds to the score of document `u`: the smaller of its count
/// in the query and its frequency in the document, or nothing when it is not in `u`.
pub open spec fn contribution(e: (Seq<char>, nat), m: Map<Seq<char>, Map<usize, nat>>, u: usize) -> nat {
    if m.dom().contains(e.0) && m[e.0].dom().contains(u) {
        if e.1 <= m[e.0][u] {
            e.1
        } else {
            m[e.0][u]
        }
    } else {
        0
    }
}

/// The score of document `u` for a query's counts `q`.
pub open spec fn score(q: Seq<(Seq<char>, nat)>, m: Map<Seq<char>, Map<usize, nat>>, u: usize) -> nat
    decreases q.len(),
{
    if q.len() == 0 {
        0
    } else {
        score(q.drop_last(), m, u) + contribution(q.last(), m, u)
    }
}

/// How often the n-gram `g` occurs in document `u`, by the index `m`: 0 where it does not.
pub open spec fn doc_frequency(m: Map<Seq<char>, Map<usize, nat>>, g: Seq<char>, u: usize) -> nat {
    if m.dom().contains(g) && m[g].dom().contains(u) {
        m[g][u]
    } else {
        0
    }
}

/// The sum, over the n-grams of a query's counts `q`, of how often each occurs in document `u`.
pub open spec fn doc_total(q: Seq<(Seq<char>, nat)>, m: Map<Seq<char>, Map<usize, nat>>, u: usize) -> nat
    decreases q.len(),
{
    if q.len() == 0 {
        0
    } else {
        doc_total(q.drop_last(), m, u) + doc_frequency(m, q.last().0, u)
    }
}

/// A shared n-gram adds to a document's score the smaller of its count in the query and its
/// frequency in the document: never more than either, and exactly one of them.
pub proof fn lemma_contribution_is_the_smaller_count(e: (Seq<char>, nat), m: Map<Seq<char>, Map<usize, nat>>, u: usize)
    ensures
        contribution(e, m, u) <= e.1,
        contribution(e, m, u) <= doc_frequency(m, e.0, u),
        contribution(e, m, u) == e.1 || contribution(e, m, u) == doc_frequency(m, e.0, u),
{
}

/// A document's score never exceeds how often the query's n-grams occur in the document,
/// nor how many n-grams the query has.
pub proof fn lemma_score_bounded_by_both_counts(q: Seq<(Seq<char>, nat)>, m: Map<Seq<char>, Map<usize, nat>>, u: usize)
    ensures
        score(q, m, u) <= doc_total(q, m, u),
        score(q, m, u) <= total_count(q),
    decreases q.len(),
{
    if q.len() > 0 {
        lemma_score_bounded_by_both_counts(q.drop_last(), m, u);
        lemma_contribution_is_the_smaller_count(q.last(), m, u);
    }
}

/// Whether document `u` shares an n-gram with a query's counts `q`.
pub open spec fn touched(q: Seq<(Seq<char>, nat)>, m: Map<Seq<char>, Map<usize, nat>>, u: usize) -> bool
    decreases q.len(),
{
    if q.len() == 0 {
        false
    } else {
        touched(q.drop_last(), m, u) || (m.dom().contains(q.last().0) && m[q.last().0].dom().contains(u))
    }
}

pub proof fn lemma_score_bound(q: Seq<(Seq<char>, nat)>, m: Map<Seq<char>, Map<usize, nat>>, u: usize)
    ensures
        score(q, m, u) <= total_count(q),
    decreases q.len(),
{
    if q.len() > 0 {
        lemma_score_bound(q.drop_last(), m, u);
    }
}

pub proof fn lemma_total_count_prefix(q: Seq<(Seq<char>, nat)>, i: int)
    requires
        0 <= i <= q.len(),
    ensures
        total_count(q.take(i)) <= total_count(q),
    decreases q.len() - i,
{
    if i < q.len() {
        lemma_total_count_prefix(q, i + 1);
        assert(q.take(i + 1).drop_last() == q.take(i));
    } else {
        assert(q.take(i) == q);
    }
}

/// The position of the entry of `scores` for document `u`.
fn find_doc(scores: &Vec<(usize, usize)>, u: usize) -> (k: Option<usize>)
    ensures
        match k {
            Some(k) => k < scores.len() && scores@[k as int].0 == u,
            None => forall|a: int| 0 <= a < scores.len() ==> scores@[a].0 != u,
        },
{
    let mut j: usize = 0;
    while j < scores.len()
        invariant
            j <= scores.len(),
            forall|a: int| 0 <= a < j ==> scores@[a].0 != u,
        decreases scores.len() - j,
    {
        if scores[j].0 == u {
            return Some(j);
        }
        j = j + 1;
    }
    None
}

/// Adds `c` to the score of document `u`, which starts at `c` when `u` has none yet.
fn bump(scores: &mut Vec<(usize, usize)>, u: usize, c: usize)
    requires
        keys_distinct(old(scores)@),
        assoc_map(old(scores)@).dom().contains(u) ==> assoc_map(old(scores)@)[u] + c <= usize::MAX,
    ensures
        keys_distinct(final(scores)@),
        assoc_map(final(scores)@) == assoc_map(old(scores)@).insert(
            u,
            if assoc_map(old(scores)@).dom().contains(u) { (assoc_map(old(scores)@)[u] + c) as usize } else { c },
        ),
{
    let ghost old_scores = scores@;
    proof {
        lemma_assoc_map(old_scores);
    }
    match find_doc(scores, u) {
        Some(a) => {
            let s = scores[a].1;
            assert(assoc_map(old_scores)[u] == s);
            scores.set(a, (u, s + c));
            proof {
                lemma_assoc_map_update(old_scores, a as int, (s + c) as usize);
                assert(scores@ == old_scores.update(a as int, (old_scores[a as int].0, (s + c) as usize)));
                assert forall|x: int, y: int| 0 <= x < y < scores.len() implies scores@[x].0 != scores@[y].0 by {
                    assert(old_scores[x].0 != old_scores[y].0);
                }
            }
        },
        None => {
            assert(!assoc_map(old_scores).dom().contains(u));
            scores.push((u, c));
            proof {
                assert(scores@.drop_last() == old_scores);
                assert forall|x: int, y: int| 0 <= x < y < scores.len() implies scores@[x].0 != scores@[y].0 by {
                    if y < old_scores.len() {
                        assert(old_scores[x].0 != old_scores[y].0);
                    }
                }
            }
        },
    }
}

/// `scores` holds, for each document that shares an n-gram with `q`, its score.
pub open spec fn holds_scores(scores: Seq<(usize, usize)>, q: Seq<(Seq<char>, nat)>, m: Map<Seq<char>, Map<usize, nat>>) -> bool {
    &&& keys_distinct(scores)
    &&& forall|u: usize| #[trigger] assoc_map(scores).dom().contains(u) <==> touched(q, m, u)
    &&& forall|u: usize| #[trigger] assoc_map(scores).dom().contains(u) ==> assoc_map(scores)[u] == score(q, m, u)
}

/// The documents listed in postings.
pub open spec fn posted(p: Seq<(usize, Frequency)>) -> Set<usize> {
    postings_view(p).dom()
}

/// Adds to `scores` what the query n-gram `g`, counted `f1` times, gives each document.
fn add_ngram_scores(
    scores: &mut Vec<(usize, usize)>,
    f1: usize,
    postings: &Vec<(usize, Frequency)>,
    Ghost(q): Ghost<Seq<(Seq<char>, nat)>>,
    Ghost(g): Ghost<Seq<char>>,
    Ghost(m): Ghost<Map<Seq<char>, Map<usize, nat>>>,
)
    requires
        holds_scores(old(scores)@, q, m),
        m.dom().contains(g),
        m[g] == postings_view(postings@),
        keys_distinct(postings_pairs(postings@)),
        forall|u: usize| #[trigger] score(q.push((g, f1 as nat)), m, u) <= usize::MAX,
    ensures
        holds_scores(final(scores)@, q.push((g, f1 as nat)), m),
{
    let ghost e = (g, f1 as nat);
    let ghost q2 = q.push(e);
    let ghost pm = postings_view(postings@);
    proof {
        assert(q2.drop_last() == q);
        assert(q2.last() == e);
        lemma_assoc_map(postings_pairs(postings@));
        assert(postings@.take(0) == Seq::<(usize, Frequency)>::empty());
        assert(postings_pairs(postings@.take(0)) == Seq::<(usize, nat)>::empty());
    }
    let mut b: usize = 0;
    while b < postings.len()
        invariant
            b <= postings.len(),
            pm == postings_view(postings@),
            keys_distinct(postings_pairs(postings@)),
            forall|c: int| 0 <= c < postings.len() ==> #[trigger] pm[postings_pairs(postings@)[c].0] == postings_pairs(postings@)[c].1,
            m.dom().contains(g),
            m[g] == pm,
            e == (g, f1 as nat),
            q2 == q.push(e),
            forall|u: usize| #[trigger] score(q2, m, u) <= usize::MAX,
            forall|u: usize| #[trigger] score(q2, m, u) == score(q, m, u) + contribution(e, m, u),
            keys_distinct(scores@),
            forall|u: usize| #[trigger] assoc_map(scores@).dom().contains(u) <==> touched(q, m, u) || posted(postings@.take(b as int)).contains(u),
            forall|u: usize| #[trigger] assoc_map(scores@).dom().contains(u) ==> assoc_map(scores@)[u] == score(q, m, u)
                + if posted(postings@.take(b as int)).contains(u) { contribution(e, m, u) } else { 0 },
        decreases postings.len() - b,
    {
        let u = postings[b].0;
        let f2 = postings[b].1;
        let c = if f1 <= f2 { f1 } else { f2 };
        let ghost before = posted(postings@.take(b as int));
        proof {
            assert(postings_pairs(postings@)[b as int] == (u, f2 as nat));
            assert(pm[u] == f2);
            lemma_assoc_map(postings_pairs(postings@));
            assert(pm.dom().contains(u));
            assert(contribution(e, m, u) == c);
            assert(postings@.take(b + 1).drop_last() == postings@.take(b as int));
            assert(postings_pairs(postings@.take(b + 1)).drop_last() == postings_pairs(postings@.take(b as int)));
            assert(posted(postings@.take(b + 1)) == before.insert(u));
            lemma_assoc_map(postings_pairs(postings@.take(b as int)));
            assert(!before.contains(u)) by {
                if before.contains(u) {
                    let c2 = choose|c2: int| 0 <= c2 < b && postings_pairs(postings@.take(b as int))[c2].0 == u;
                    assert(postings_pairs(postings@)[c2].0 == postings_pairs(postings@)[b as int].0);
                }
            }
            if assoc_map(scores@).dom().contains(u) {
                assert(assoc_map(scores@)[u] == score(q, m, u));
                assert(score(q2, m, u) == score(q, m, u) + c);
            } else {
                assert(!touched(q, m, u));
                lemma_untouched_score(q, m, u);
            }
        }
        bump(scores, u, c);
        b = b + 1;
    }
    proof {
        assert(postings@.take(postings.len() as int) == postings@);
        assert forall|u: usize| #[trigger] assoc_map(scores@).dom().contains(u) <==> touched(q2, m, u) by {
            assert(touched(q2, m, u) == (touched(q, m, u) || pm.dom().contains(u)));
        }
        assert forall|u: usize| #[trigger] assoc_map(scores@).dom().contains(u) implies assoc_map(scores@)[u] == score(q2, m, u) by {
            if !pm.dom().contains(u) {
                assert(contribution(e, m, u) == 0);
            }
        }
    }
}

/// Adding a query n-gram that no document holds changes no score.
proof fn lemma_absent_ngram(scores: Seq<(usize, usize)>, q: Seq<(Seq<char>, nat)>, m: Map<Seq<char>, Map<usize, nat>>, e: (Seq<char>, nat))
    requires
        holds_scores(scores, q, m),
        !m.dom().contains(e.0),
    ensures
        holds_scores(scores, q.push(e), m),
{
    let q2 = q.push(e);
    assert(q2.drop_last() == q);
    assert(q2.last() == e);
    assert forall|u: usize| #[trigger] assoc_map(scores).dom().contains(u) <==> touched(q2, m, u) by {
        assert(touched(q2, m, u) == touched(q, m, u));
    }
    assert forall|u: usize| #[trigger] assoc_map(scores).dom().contains(u) implies assoc_map(scores)[u] == score(q2, m, u) by {
        assert(score(q2, m, u) == score(q, m, u));
    }
}

/// The documents that share an n-gram with the query text, best score first; the score of a
/// document sums, over the query's n-grams, the smaller of the two counts.
#[verifier::rlimit(40)]
pub fn query(text: &str, inverse_index: &InverseIndex) -> (found: Vec<usize>)
    requires
        inverse_wf(inverse_index@),
    ensures
        forall|i: int, j: int| 0 <= i < j < found.len() ==> found@[i] != found@[j],
        forall|u: usize| #[trigger] found@.contains(u) <==> touched(tally(ngram_list(text@)), inverse_view(inverse_index@), u),
        forall|i: int, j: int| 0 <= i < j < found.len() ==>
            score(tally(ngram_list(text@)), inverse_view(inverse_index@), #[trigger] found@[i])
                >= score(tally(ngram_list(text@)), inverse_view(inverse_index@), #[trigger] found@[j]),
{
    let ngrams = analyze(text);
    let ghost qt = tally(ngram_list(text@));
    let ghost m = inverse_view(inverse_index@);
    proof {
        lemma_tally(ngram_list(text@));
        lemma_assoc_map(inverse_pairs(inverse_index@));
    }
    let mut scores: Vec<(usize, usize)> = Vec::new();
    let mut i: usize = 0;
    proof {
        assert(qt.take(0) == Seq::<(Seq<char>, nat)>::empty());
        assert(assoc_map(scores@) == Map::<usize, usize>::empty());
    }
    while i < ngrams.len()
        invariant
            i <= ngrams.len(),
            tally_view(ngrams@) == qt,
            inverse_wf(inverse_index@),
            m == inverse_view(inverse_index@),
            total_count(qt) <= usize::MAX,
            forall|g: Seq<char>| #[trigger] m.dom().contains(g) <==> exists|k: int| 0 <= k < inverse_index.len() && inverse_pairs(inverse_index@)[k].0 == g,
            forall|k: int| 0 <= k < inverse_index.len() ==> #[trigger] m[inverse_pairs(inverse_index@)[k].0] == inverse_pairs(inverse_index@)[k].1,
            holds_scores(scores@, qt.take(i as int), m),
        decreases ngrams.len() - i,
    {
        let g = &ngrams[i].0.0;
        let f1 = ngrams[i].1;
        let ghost e = (g@, f1 as nat);
        proof {
            assert(qt[i as int] == e);
            assert(qt.take(i + 1) == qt.take(i as int).push(e));
            lemma_total_count_prefix(qt, i + 1);
            assert forall|u: usize| #[trigger] score(qt.take(i + 1), m, u) <= usize::MAX by {
                lemma_score_bound(qt.take(i + 1), m, u);
            }
        }
        match find_ngram(inverse_index, g) {
            Some(k) => {
                proof {
                    assert(inverse_pairs(inverse_index@)[k as int].0 == g@);
                    assert(keys_distinct(postings_pairs(inverse_index@[k as int].1@)));
                }
                add_ngram_scores(&mut scores, f1, &inverse_index[k].1, Ghost(qt.take(i as int)), Ghost(g@), Ghost(m));
            },
            None => {
                proof {
                    assert(!m.dom().contains(g@)) by {
                        if m.dom().contains(g@) {
                            let k = choose|k: int| 0 <= k < inverse_index.len() && inverse_pairs(inverse_index@)[k].0 == g@;
                            assert(inverse_index@[k].0@ == g@);
                        }
                    }
                    lemma_absent_ngram(scores@, qt.take(i as int), m, e);
                }
            },
        }
        i = i + 1;
    }
    proof {
        assert(qt.take(ngrams.len() as int) == qt);
        lemma_assoc_map(scores@);
    }
    let sorted = sort_by_score(scores);
    collect_docs(&sorted, Ghost(scores@), Ghost(qt), Ghost(m))
}

/// The documents of sorted scores, in order.
fn collect_docs(
    sorted: &Vec<(usize, usize)>,
    Ghost(scores): Ghost<Seq<(usize, usize)>>,
    Ghost(qt): Ghost<Seq<(Seq<char>, nat)>>,
    Ghost(m): Ghost<Map<Seq<char>, Map<usize, nat>>>,
) -> (found: Vec<usize>)
    requires
        holds_scores(scores, qt, m),
        keys_distinct(sorted@),
        forall|y: (usize, usize)| #[trigger] sorted@.contains(y) <==> scores.contains(y),
        forall|a: int, b: int| 0 <= a < b < sorted.len() ==> #[trigger] sorted@[a].1 >= #[trigger] sorted@[b].1,
    ensures
        forall|i: int, j: int| 0 <= i < j < found.len() ==> found@[i] != found@[j],
        forall|u: usize| #[trigger] found@.contains(u) <==> touched(qt, m, u),
        forall|i: int, j: int| 0 <= i < j < found.len() ==> score(qt, m, #[trigger] found@[i]) >= score(qt, m, #[trigger] found@[j]),
{
    let mut found: Vec<usize> = Vec::new();
    let mut j: usize = 0;
    while j < sorted.len()
        invariant
            j <= sorted.len(),
            found@ == sorted@.take(j as int).map_values(|e: (usize, usize)| e.0),
        decreases sorted.len() - j,
    {
        found.push(sorted[j].0);
        j = j + 1;
        assert(sorted@.take(j as int).map_values(|e: (usize, usize)| e.0)
            == sorted@.take(j - 1).map_values(|e: (usize, usize)| e.0).push(sorted@[j - 1].0));
    }
    proof {
        assert(sorted@.take(sorted.len() as int) == sorted@);
        lemma_assoc_map(scores);
        assert forall|a: int| 0 <= a < sorted.len() implies assoc_map(scores).dom().contains(#[trigger] sorted@[a].0)
            && assoc_map(scores)[sorted@[a].0] == sorted@[a].1 by {
            assert(sorted@.contains(sorted@[a]));
            let c = choose|c: int| 0 <= c < scores.len() && scores[c] == sorted@[a];
            assert(assoc_map(scores)[scores[c].0] == scores[c].1);
        }
        assert forall|u: usize| #[trigger] found@.contains(u) <==> touched(qt, m, u) by {
            if found@.contains(u) {
                let a = choose|a: int| 0 <= a < found.len() && found@[a] == u;
                assert(assoc_map(scores).dom().contains(sorted@[a].0));
            }
            if touched(qt, m, u) {
                assert(assoc_map(scores).dom().contains(u));
                let c = choose|c: int| 0 <= c < scores.len() && scores[c].0 == u;
                assert(scores.contains(scores[c]));
                assert(sorted@.contains(scores[c]));
                let a = choose|a: int| 0 <= a < sorted.len() && sorted@[a] == scores[c];
                assert(found@[a] == u);
            }
        }
        assert forall|x: int, y: int| 0 <= x < y < found.len() implies
            score(qt, m, #[trigger] found@[x]) >= score(qt, m, #[trigger] found@[y]) by {
            assert(sorted@[x].1 >= sorted@[y].1);
            assert(assoc_map(scores).dom().contains(sorted@[x].0));
            assert(assoc_map(scores).dom().contains(sorted@[y].0));
        }
        assert forall|x: int, y: int| 0 <= x < y < found.len() implies found@[x] != found@[y] by {
            assert(sorted@[x].0 != sorted@[y].0);
        }
    }
    found
}

/// Inserts `x` into `out`, after every entry whose score is at least that of `x`.
fn insert_by_score(out: &mut Vec<(usize, usize)>, x: (usize, usize))
    requires
        keys_distinct(old(out)@),
        forall|a: int| 0 <= a < old(out).len() ==> old(out)@[a].0 != x.0,
        forall|a: int, b: int| 0 <= a < b < old(out).len() ==> #[trigger] old(out)@[a].1 >= #[trigger] old(out)@[b].1,
    ensures
        keys_distinct(final(out)@),
        forall|y: (usize, usize)| #[trigger] final(out)@.contains(y) <==> old(out)@.contains(y) || y == x,
        forall|a: int, b: int| 0 <= a < b < final(out).len() ==> #[trigger] final(out)@[a].1 >= #[trigger] final(out)@[b].1,
{
    let mut p: usize = 0;
    while p < out.len() && out[p].1 >= x.1
        invariant
            p <= out.len(),
            forall|a: int| 0 <= a < p ==> out@[a].1 >= x.1,
        decreases out.len() - p,
    {
        p = p + 1;
    }
    let ghost before = out@;
    assert forall|a: int| p <= a < before.len() implies before[a].1 < x.1 by {
        if a > p {
            assert(before[p as int].1 >= before[a].1);
        }
    }
    out.insert(p, x);
    proof {
        assert(out@ == before.insert(p as int, x));
        assert forall|y: (usize, usize)| #[trigger] out@.contains(y) <==> before.contains(y) || y == x by {
            if out@.contains(y) {
                let a = choose|a: int| 0 <= a < out.len() && out@[a] == y;
                if a < p {
                    assert(before[a] == y);
                } else if a > p {
                    assert(before[a - 1] == y);
                }
            }
            if before.contains(y) {
                let a = choose|a: int| 0 <= a < before.len() && before[a] == y;
                if a < p {
                    assert(out@[a] == y);
                } else {
                    assert(out@[a + 1] == y);
                }
            }
            if y == x {
                assert(out@[p as int] == y);
            }
        }
        assert forall|a: int, b: int| 0 <= a < b < out.len() implies #[trigger] out@[a].1 >= #[trigger] out@[b].1 by {
            if b < p {
                assert(before[a].1 >= before[b].1);
            } else if a > p {
                assert(before[a - 1].1 >= before[b - 1].1);
            } else if a == p {
                assert(before[b - 1].1 < x.1);
            } else if b == p {
                assert(before[a].1 >= x.1);
            } else {
                assert(before[a].1 >= before[b - 1].1);
            }
        }
        assert forall|a: int, b: int| 0 <= a < b < out.len() implies out@[a].0 != out@[b].0 by {
            if b < p {
                assert(before[a].0 != before[b].0);
            } else if a > p {
                assert(before[a - 1].0 != before[b - 1].0);
            } else if a == p {
                assert(before[b - 1].0 != x.0);
            } else if b == p {
                assert(before[a].0 != x.0);
            } else {
                assert(before[a].0 != before[b - 1].0);
            }
        }
    }
}

/// The entries of `scores`, highest score first; equal scores keep their order.
fn sort_by_score(scores: Vec<(usize, usize)>) -> (sorted: Vec<(usize, usize)>)
    requires
        keys_distinct(scores@),
    ensures
        keys_distinct(sorted@),
        forall|y: (usize, usize)| #[trigger] sorted@.contains(y) <==> scores@.contains(y),
        forall|a: int, b: int| 0 <= a < b < sorted.len() ==> #[trigger] sorted@[a].1 >= #[trigger] sorted@[b].1,
{
    let mut out: Vec<(usize, usize)> = Vec::new();
    let mut i: usize = 0;
    while i < scores.len()
        invariant
            i <= scores.len(),
            keys_distinct(scores@),
            keys_distinct(out@),
            forall|y: (usize, usize)| #[trigger] out@.contains(y) <==> scores@.take(i as int).contains(y),
            forall|a: int, b: int| 0 <= a < b < out.len() ==> #[trigger] out@[a].1 >= #[trigger] out@[b].1,
        decreases scores.len() - i,
    {
        let x = scores[i];
        proof {
            assert forall|a: int| 0 <= a < out.len() implies out@[a].0 != x.0 by {
                assert(out@.contains(out@[a]));
                let c = choose|c: int| 0 <= c < i && scores@.take(i as int)[c] == out@[a];
                assert(scores@[c].0 != scores@[i as int].0);
            }
            assert(scores@.take(i + 1) == scores@.take(i as int).push(x));
        }
        insert_by_score(&mut out, x);
        proof {
            broadcast use vstd::seq_lib::group_seq_properties;
            assert forall|y: (usize, usize)| #[trigger] out@.contains(y) <==> scores@.take(i + 1).contains(y) by {
                assert(scores@.take(i + 1).contains(y) <==> scores@.take(i as int).contains(y) || y == x);
            }
        }
        i = i + 1;
    }
    assert(scores@.take(scores.len() as int) == scores@);
    out
}

pub proof fn lemma_untouched_score(q: Seq<(Seq<char>, nat)>, m: Map<Seq<char>, Map<usize, nat>>, u: usize)
    requires
        !touched(q, m, u),
    ensures
        score(q, m, u) == 0,
    decreases q.len(),
{
    if q.len() > 0 {
        lemma_untouched_score(q.drop_last(), m, u);
    }
}

/// `found` lists the documents that share an n-gram with the query counts `q`, each once,
/// from the highest score down.
pub open spec fn ranked(found: Seq<usize>, q: Seq<(Seq<char>, nat)>, m: Map<Seq<char>, Map<usize, nat>>) -> bool {
    &&& forall|i: int, j: int| 0 <= i < j < found.len() ==> found[i] != found[j]
    &&& forall|u: usize| #[trigger] found.contains(u) <==> touched(q, m, u)
    &&& forall|i: int, j: int| 0 <= i < j < found.len() ==>
        score(q, m, #[trigger] found[i]) >= score(q, m, #[trigger] found[j])
}

/// A document that a query touches in an inverted index is one of the indexed documents.
pub proof fn lemma_touched_in_range(
    q: Seq<(Seq<char>, nat)>,
    m: Map<Seq<char>, Map<usize, nat>>,
    docs: Seq<Map<Seq<char>, nat>>,
    u: usize,
)
    requires
        inverts(m, docs),
        touched(q, m, u),
    ensures
        u < docs.len(),
    decreases q.len(),
{
    if touched(q.drop_last(), m, u) {
        lemma_touched_in_range(q.drop_last(), m, docs, u);
    } else {
        assert(m[q.last().0].dom().contains(u));
    }
}

proof fn lemma_full_score_prefix(
    q: Seq<(Seq<char>, nat)>,
    m: Map<Seq<char>, Map<usize, nat>>,
    docs: Seq<Map<Seq<char>, nat>>,
    u: usize,
    i: int,
)
    requires
        inverts(m, docs),
        u < docs.len(),
        docs[u as int] == assoc_map(q),
        keys_distinct(q),
        0 <= i <= q.len(),
    ensures
        score(q.take(i), m, u) == total_count(q.take(i)),
    decreases i,
{
    if i > 0 {
        lemma_full_score_prefix(q, m, docs, u, i - 1);
        let p = q.take(i);
        assert(p.drop_last() == q.take(i - 1));
        assert(p.last() == q[i - 1]);
        lemma_assoc_map(q);
        let g = q[i - 1].0;
        assert(assoc_map(q).dom().contains(g));
        assert(docs[u as int].dom().contains(g));
        assert(m.dom().contains(g) && m[g].dom().contains(u));
        assert(m[g][u] == docs[u as int][g]);
        assert(assoc_map(q)[q[i - 1].0] == q[i - 1].1);
    } else {
        assert(q.take(0).len() == 0);
    }
}

/// Searching for the text of an indexed document scores that document highest: each of
/// the query's n-grams counts in full for it, and no document scores more, so it is found
/// first or tied for first.
pub proof fn lemma_own_text_scores_highest(
    text: Seq<char>,
    m: Map<Seq<char>, Map<usize, nat>>,
    docs: Seq<Map<Seq<char>, nat>>,
    u: usize,
)
    requires
        inverts(m, docs),
        u < docs.len(),
        docs[u as int] == assoc_map(tally(ngram_list(text))),
    ensures
        score(tally(ngram_list(text)), m, u) == total_count(tally(ngram_list(text))),
        forall|v: usize| #[trigger] score(tally(ngram_list(text)), m, v) <= score(tally(ngram_list(text)), m, u),
{
    let q = tally(ngram_list(text));
    lemma_tally(ngram_list(text));
    assert(keys_distinct(q));
    lemma_full_score_prefix(q, m, docs, u, q.len() as int);
    assert(q.take(q.len() as int) == q);
    assert forall|v: usize| #[trigger] score(q, m, v) <= score(q, m, u) by {
        lemma_score_bound(q, m, v);
    }
}

} // verus!
