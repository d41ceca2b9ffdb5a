use std::collections::HashMap;

use binah_bot::analyzer::{analyze, generate_index, generate_inverse_index, invert_index, query, tokenize, Ngram};
use binah_bot::filters::{filter, punctuation_filter, stopword_filter};

fn as_map(counts: &[(Ngram, usize)]) -> HashMap<String, usize> {
    counts.iter().map(|(n, f)| (n.0.clone(), *f)).collect()
}

fn expected(ngrams: &[&str]) -> HashMap<String, usize> {
    let mut map = HashMap::new();
    for g in ngrams {
        *map.entry(g.to_string()).or_insert(0) += 1;
    }
    map
}

#[test]
fn sanity_tokenize() {
    let input = "The Weight of Sin";
    let expected = vec![
        "The".to_string(),
        "Weight".to_string(),
        "of".to_string(),
        "Sin".to_string(),
    ];
    assert_eq!(expected, tokenize(input));
}

#[test]
fn sanity_eternally_lit_lamp() {
    let input = "Eternally Lit Lamp";
    let expected = expected(&[
        "^^e", "^et", "eet", "ert", "enr", "anr", "aln", "all", "lly", "ly|", "^^l", "^li",
        "ilt", "it|", "^^l", "^la", "alm", "amp", "mp|",
    ]);
    assert_eq!(Some(&2), expected.get("^^l"));
    assert_eq!(expected, as_map(&analyze(input)));
}

#[test]
fn lib_sanity_degraded_pillar() {
    let input = "degraded pillar";
    let expected = expected(&[
        "^^d", "^de", "deg", "egr", "agr", "adr", "ade", "dde", "de|", "^^p", "^pi", "ilp",
        "ill", "all", "alr", "ar|",
    ]);
    assert_eq!(expected, as_map(&analyze(input)));
}

#[test]
fn sanity_jp() {
    let input = "回避";
    let expected = expected(&["^^回", "^回避", "|回避"]);
    assert_eq!(expected, as_map(&analyze(input)));
}

#[test]
fn analyze_short_str() {
    ["", "b", "bb", "bbb", "a", "of", "the"].iter().for_each(|x| {
        analyze(x);
    });
}

#[test]
fn analyze_of_nothing_is_the_empty_token() {
    assert_eq!(expected(&["^^|"]), as_map(&analyze("")));
    assert_eq!(expected(&["^^|"]), as_map(&analyze("the of a")));
}

#[test]
fn analyze_counts_in_order_of_first_occurrence() {
    let counts = analyze("aa aa");
    let keys: Vec<&str> = counts.iter().map(|(n, _)| n.0.as_str()).collect();
    assert_eq!(vec!["^^a", "^aa", "aa|"], keys);
    assert!(counts.iter().all(|(_, f)| *f == 2));
}

#[test]
fn sanity_generate_index() {
    let docs = vec!["hello".to_string(), "hi".to_string()];
    let index = generate_index(&docs);
    let index1_map = as_map(&index[0]);
    let index2_map = as_map(&index[1]);
    assert_eq!(Some(1), index1_map.get("ehl").copied());
    assert_eq!(None, index2_map.get("ehl").copied());
}

#[test]
fn sanity_invert_index() {
    let index = vec![analyze("hello"), analyze("hi")];
    let inverted_index = invert_index(&index);
    let keys = inverted_index.iter().map(|x| x.0 .0.as_str()).collect::<Vec<_>>();
    ["^^h", "^he", "ehl", "ell", "llo", "lo|", "^hi", "hi|"].iter().for_each(|x| {
        assert!(keys.contains(x));
    });
    let hh = inverted_index.iter().find(|x| x.0 .0 == "^^h").unwrap();
    assert_eq!(vec![(0, 1), (1, 1)], hh.1);
}

#[test]
fn lib_sanity_query() {
    let docs = vec!["hello".to_string(), "goodbye".to_string(), "hi".to_string()];
    let inverse_index = generate_inverse_index(&docs);
    let query = query("hellllllohi", &inverse_index);
    // "goodbye" has no n-gram in common, so it is left out
    assert_eq!(2, query.len());
    assert_eq!(0, query[0]);
    assert_eq!(2, query[1]);
}

#[test]
fn query_with_no_shared_ngram_finds_nothing() {
    let docs = vec!["hello".to_string()];
    let inverse_index = generate_inverse_index(&docs);
    assert!(query("zzzz", &inverse_index).is_empty());
}

#[test]
fn punctuation_filter_sanity() {
    let input = "hello?".to_string();
    let expected = "hello".to_string();
    assert_eq!(expected, punctuation_filter(&input));
}

#[test]
fn punctuation_filter_accents() {
    let input = "ChīWěn".to_string();
    let expected = "chiwen".to_string();
    assert_eq!(expected, punctuation_filter(&input));
}

#[test]
fn punctuation_filter_possessives_symbols_and_dashes() {
    assert_eq!("bird", punctuation_filter(&"Bird's".to_string()));
    assert_eq!("bird", punctuation_filter(&"Bird’s".to_string()));
    assert_eq!("♥ heart", punctuation_filter(&"<color=red>♥</color> heart".to_string()));
    assert_eq!("part ⅲ", punctuation_filter(&"Part Ⅲ".to_string()));
    assert_eq!("a b c", punctuation_filter(&"a-b/c".to_string()));
}

#[test]
fn stopword_filter_sanity() {
    assert!(stopword_filter(&"another".to_string()));
    assert!(!stopword_filter(&"the".to_string()));
}

#[test]
fn filters_sanity() {
    let input = vec![
        "Trim".to_string(),
        "The".to_string(),
        "Ingredients".to_string(),
    ];
    let expected = vec!["trim".to_string(), "ingredients".to_string()];
    assert_eq!(expected, filter(input));
}

#[test]
fn trim_removes_exactly_unicode_whitespace() {
    for u in 0u32..0x3100 {
        if let Some(c) = char::from_u32(u) {
            let text = format!("{c}x{c}");
            assert_eq!(text.trim(), binah_bot::text::trim(&text), "U+{u:04X}");
        }
    }
}
