use vstd::prelude::*;

use crate::analyzer::{
    doc_tally_maps, generate_inverse_index, inverse_view, inverts, lemma_touched_in_range,
    ngram_list, query as ranked_query, ranked, tally,
};
use crate::game_objects::EncyclopediaInfoLocalization;
use crate::lists::str_views;
use crate::numbers::{parse_u32, parse_unsigned};
use crate::text::{append_str, join_spec, string_of};

verus! {

/// The words an abnormality is found by in one language: its name, its other names and its
/// code, separated by spaces.
pub open spec fn localization_words(l: EncyclopediaInfoLocalization) -> Seq<char> {
    l.name@ + seq![' '] + join_spec(str_views(l.other_names@), ' ') + seq![' '] + l.code@
}

/// Appends the items of `v` separated by spaces.
fn append_joined(out: &mut Vec<char>, v: &[&str])
    ensures
        final(out)@ == old(out)@ + join_spec(str_views(v@), ' '),
{
    let mut i: usize = 0;
    while i < v.len()
        invariant
            i <= v.len(),
            out@ == old(out)@ + join_spec(str_views(v@.take(i as int)), ' '),
        decreases v.len() - i,
    {
        let ghost before = out@;
        assert(str_views(v@.take(i + 1)).drop_last() == str_views(v@.take(i as int)));
        assert(str_views(v@.take(i + 1)).last() == v@[i as int]@);
        if i > 0 {
            out.push(' ');
        }
        append_str(out, v[i]);
        i = i + 1;
        if i == 1 {
            assert(join_spec(str_views(v@.take(1)), ' ') == v@[0]@);
            assert(out@ =~= old(out)@ + join_spec(str_views(v@.take(1)), ' '));
        } else {
            assert(out@ =~= old(out)@ + join_spec(str_views(v@.take(i as int)), ' '));
        }
    }
    assert(v@.take(v.len() as int) == v@);
}

/// The text an abnormality is indexed by: its words in every language, separated by spaces.
pub fn assemble_name(localizations: &[EncyclopediaInfoLocalization]) -> (s: String)
    ensures
        s@ == join_spec(localizations@.map_values(|l: EncyclopediaInfoLocalization| localization_words(l)), ' '),
{
    let ghost words = localizations@.map_values(|l: EncyclopediaInfoLocalization| localization_words(l));
    let mut out: Vec<char> = Vec::new();
    let mut i: usize = 0;
    while i < localizations.len()
        invariant
            i <= localizations.len(),
            words == localizations@.map_values(|l: EncyclopediaInfoLocalization| localization_words(l)),
            out@ == join_spec(words.take(i as int), ' '),
        decreases localizations.len() - i,
    {
        let ghost before = out@;
        assert(words.take(i + 1).drop_last() == words.take(i as int));
        assert(words.take(i + 1).last() == words[i as int]);
        if i > 0 {
            out.push(' ');
        }
        let l = &localizations[i];
        let ghost start = out@;
        append_str(&mut out, l.name);
        out.push(' ');
        append_joined(&mut out, l.other_names);
        out.push(' ');
        append_str(&mut out, l.code);
        assert(out@ =~= start + localization_words(*l));
        i = i + 1;
        if i == 1 {
            assert(join_spec(words.take(1), ' ') == words[0]);
            assert(out@ =~= join_spec(words.take(1), ' '));
        } else {
            assert(out@ =~= join_spec(words.take(i as int), ' '));
        }
    }
    assert(words.take(localizations.len() as int) == words);
    string_of(&out)
}

/// The ids of the abnormalities that match `query_text`, best first: the abnormalities are
/// indexed by their texts, `names[k]` being that of `ids[k]`, and ranked as the search
/// index ranks them.
pub fn query(query_text: &str, names: &Vec<String>, ids: &Vec<u32>) -> (r: Vec<u32>)
    requires
        names.len() == ids.len(),
    ensures
        exists|m: Map<Seq<char>, Map<usize, nat>>, found: Seq<usize>|
            #![trigger inverts(m, doc_tally_maps(names@)), ranked(found, tally(ngram_list(query_text@)), m)]
            inverts(m, doc_tally_maps(names@)) && ranked(found, tally(ngram_list(query_text@)), m)
                && r.len() == found.len() && forall|k: int| 0 <= k < r.len() ==> r@[k] == ids@[found[k] as int],
{
    let inv = generate_inverse_index(names);
    let found = ranked_query(query_text, &inv);
    let ghost q = tally(ngram_list(query_text@));
    let ghost m = inverse_view(inv@);
    assert(ranked(found@, q, m));
    let mut r: Vec<u32> = Vec::new();
    let mut k: usize = 0;
    while k < found.len()
        invariant
            k <= found.len(),
            r.len() == k,
            names.len() == ids.len(),
            inverts(m, doc_tally_maps(names@)),
            ranked(found@, q, m),
            forall|j: int| 0 <= j < k ==> r@[j] == ids@[found@[j] as int],
        decreases found.len() - k,
    {
        assert(found@.contains(found@[k as int]));
        proof {
            lemma_touched_in_range(q, m, doc_tally_maps(names@), found@[k as int]);
        }
        r.push(ids[found[k]]);
        k = k + 1;
    }
    r
}


/// The entry that an encyclopedia query names: the id that it writes in decimal, else the
/// best match of the search over the abnormalities' texts (`names[k]` being that of
/// `ids[k]`), if any matches.
pub fn resolve_entry_query(query_text: &str, names: &Vec<String>, ids: &Vec<u32>) -> (r: Option<u32>)
    requires
        names.len() == ids.len(),
    ensures
        parse_unsigned(query_text@, u32::MAX as nat) matches Some(n) ==> r == Some(n as u32),
        parse_unsigned(query_text@, u32::MAX as nat) is None ==> exists|m: Map<Seq<char>, Map<usize, nat>>, found: Seq<usize>|
            #![trigger inverts(m, doc_tally_maps(names@)), ranked(found, tally(ngram_list(query_text@)), m)]
            inverts(m, doc_tally_maps(names@)) && ranked(found, tally(ngram_list(query_text@)), m) && r == (if found.len()
                > 0 {
                Some(ids@[found[0] as int])
            } else {
                None
            }),
{
    match parse_u32(query_text) {
        Some(n) => Some(n),
        None => {
            let found = query(query_text, names, ids);
            if found.len() > 0 {
                Some(found[0])
            } else {
                None
            }
        },
    }
}


/// The number of choices an encyclopedia search offers.
pub const MAX_AUTOCOMPLETE_OPTIONS: usize = 10;

/// The entries an encyclopedia search offers as choices: the best matches, at most
/// `MAX_AUTOCOMPLETE_OPTIONS` of them, best first.
pub fn autocomplete_ids(query_text: &str, names: &Vec<String>, ids: &Vec<u32>) -> (r: Vec<u32>)
    requires
        names.len() == ids.len(),
    ensures
        exists|m: Map<Seq<char>, Map<usize, nat>>, found: Seq<usize>|
            #![trigger inverts(m, doc_tally_maps(names@)), ranked(found, tally(ngram_list(query_text@)), m)]
            inverts(m, doc_tally_maps(names@)) && ranked(found, tally(ngram_list(query_text@)), m) && r.len() == (if found.len()
                < MAX_AUTOCOMPLETE_OPTIONS {
                found.len() as int
            } else {
                MAX_AUTOCOMPLETE_OPTIONS as int
            }) && forall|k: int| 0 <= k < r.len() ==> r@[k] == ids@[found[k] as int],
{
    let all = query(query_text, names, ids);
    let mut r: Vec<u32> = Vec::new();
    let mut k: usize = 0;
    while k < all.len() && k < MAX_AUTOCOMPLETE_OPTIONS
        invariant
            k <= all.len(),
            k <= MAX_AUTOCOMPLETE_OPTIONS,
            r.len() == k,
            forall|j: int| 0 <= j < k ==> r@[j] == all@[j],
        decreases all.len() - k,
    {
        r.push(all[k]);
        k = k + 1;
    }
    r
}

} // verus!
