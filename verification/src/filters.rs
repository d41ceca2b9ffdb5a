use vstd::prelude::*;
use unicode_normalization::UnicodeNormalization;

use crate::text::{chars_of, replace_chars, replace_spec, str_eq, string_of, views};

verus! {

/// What `UnicodeNormalization::nfd` yields for a string: its canonical decomposition.
pub uninterp spec fn nfd_name(s: Seq<char>) -> Seq<char>;

/// What `unicode_normalization::char::is_combining_mark` answers for a character.
pub uninterp spec fn combining_mark_name(c: char) -> bool;

/// What `str::to_lowercase` returns for a string.
pub uninterp spec fn lowercase_name(s: Seq<char>) -> Seq<char>;

/// Whether every character of a text is ASCII.
pub open spec fn is_ascii_text(s: Seq<char>) -> bool {
    forall|i: int| 0 <= i < s.len() ==> (s[i] as u32) < 128
}

/// An ASCII text with `A` to `Z` turned into `a` to `z`.
pub open spec fn ascii_lower(s: Seq<char>) -> Seq<char> {
    s.map_values(|c: char| if 65 <= (c as u32) <= 90 { ((c as u32) + 32) as char } else { c })
}

/// The canonical decomposition of a text: an ASCII text is its own.
pub open spec fn nfd_spec(s: Seq<char>) -> Seq<char> {
    if is_ascii_text(s) {
        s
    } else {
        nfd_name(s)
    }
}

/// Whether a character is a combining mark: no ASCII character is one.
pub open spec fn combining_mark_spec(c: char) -> bool {
    if (c as u32) < 128 {
        false
    } else {
        combining_mark_name(c)
    }
}

/// A text in lower case: an ASCII text has its capitals `A` to `Z` lowered.
pub open spec fn lowercase_spec(s: Seq<char>) -> Seq<char> {
    if is_ascii_text(s) {
        ascii_lower(s)
    } else {
        lowercase_name(s)
    }
}

/// Calls `UnicodeNormalization::nfd` of the `unicode-normalization` crate and collects the
/// characters it yields. The contract says that an ASCII text comes back unchanged (no
/// ASCII character has a decomposition, and all are of combining class 0) and otherwise
/// only that the result is a function of `s` (named `nfd_name`); the Unicode tables
/// behind it are not stated.
#[verifier::external_body]
fn nfd_chars(s: &str) -> (r: Vec<char>)
    ensures
        r@ == (if is_ascii_text(s@) { s@ } else { nfd_name(s@) }),
{
    s.nfd().collect()
}

/// Calls `unicode_normalization::char::is_combining_mark`. The contract says that no ASCII
/// character is a combining mark and otherwise only that the answer is a function of `c`
/// (named `combining_mark_name`); the Unicode General Category table behind it is not
/// stated.
#[verifier::external_body]
fn is_combining_mark(c: char) -> (b: bool)
    ensures
        b == (if (c as u32) < 128 { false } else { combining_mark_name(c) }),
{
    unicode_normalization::char::is_combining_mark(c)
}

/// Calls `str::to_lowercase` of std. The contract says that an ASCII text has `A` to `Z`
/// lowered and nothing else changed, and otherwise only that the result is a function of
/// `s` (named `lowercase_name`); the Unicode case tables behind it are not stated.
#[verifier::external_body]
pub(crate) fn to_lowercase(s: &str) -> (r: String)
    ensures
        r@ == (if is_ascii_text(s@) { ascii_lower(s@) } else { lowercase_name(s@) }),
{
    s.to_lowercase()
}

/// `s` without the characters that are combining marks.
pub open spec fn strip_marks(s: Seq<char>) -> Seq<char>
    decreases s.len(),
{
    if s.len() == 0 {
        s
    } else if combining_mark_spec(s.last()) {
        strip_marks(s.drop_last())
    } else {
        strip_marks(s.drop_last()).push(s.last())
    }
}

/// The punctuation that a token loses.
pub open spec fn is_dropped_punctuation(c: char) -> bool {
    c == '(' || c == ')' || c == ',' || c == '"' || c == '.' || c == ';' || c == ':'
        || c == '\'' || c == '?' || c == '!' || c == '\u{2019}' || c == '~' || c == '\u{2026}'
        || c == '\u{2663}' || c == '\u{25c6}'
}

/// The heart written as a coloured tag.
pub open spec fn red_heart_tag() -> Seq<char> {
    seq!['<', 'c', 'o', 'l', 'o', 'r', '=', 'r', 'e', 'd', '>', '\u{2665}', '<', '/', 'c', 'o', 'l', 'o', 'r', '>']
}

/// What `punctuation_filter` makes of a token, in this order:
/// decomposition, combining marks dropped, lower case, the possessive `'s` removed,
/// punctuation dropped, the coloured heart unwrapped, roman numerals spelled out, and
/// `-`, `/` turned into spaces.
pub open spec fn punctuation_filter_spec(t: Seq<char>) -> Seq<char> {
    let lower = lowercase_spec(strip_marks(nfd_spec(t)));
    let a = replace_spec(lower, seq!['\u{2019}', 's'], seq![]);
    let b = replace_spec(a, seq!['\'', 's'], seq![]);
    let c = clean_punctuation_no_dash(b);
    let d = replace_spec(c, red_heart_tag(), seq!['\u{2665}']);
    let e = replace_spec(d, seq!['\u{2160}'], seq!['I']);
    let f = replace_spec(e, seq!['\u{2161}'], seq!['I', 'I']);
    let g = replace_spec(f, seq!['\u{2162}'], seq!['I', 'I', 'I']);
    dashes_to_spaces(g)
}

/// `s` without the dropped punctuation.
pub open spec fn clean_punctuation_no_dash(s: Seq<char>) -> Seq<char>
    decreases s.len(),
{
    if s.len() == 0 {
        s
    } else if is_dropped_punctuation(s.last()) {
        clean_punctuation_no_dash(s.drop_last())
    } else {
        clean_punctuation_no_dash(s.drop_last()).push(s.last())
    }
}

/// `s` with `-` and `/` turned into spaces.
pub open spec fn dashes_to_spaces(s: Seq<char>) -> Seq<char> {
    s.map_values(|c: char| if c == '-' || c == '/' { ' ' } else { c })
}

/// Whether a token is a stop word.
pub open spec fn is_stopword(t: Seq<char>) -> bool {
    t == seq!['a'] || t == seq!['t', 'h', 'e'] || t == seq!['o', 'f']
}

/// The tokens that `filter` keeps, each cleaned by `punctuation_filter`.
pub open spec fn filter_spec(tokens: Seq<Seq<char>>) -> Seq<Seq<char>>
    decreases tokens.len(),
{
    if tokens.len() == 0 {
        Seq::empty()
    } else {
        let rest = filter_spec(tokens.drop_last());
        let p = punctuation_filter_spec(tokens.last());
        if !is_stopword(p) && p.len() > 0 {
            rest.push(p)
        } else {
            rest
        }
    }
}

/// Whether a text is a word of lower-case ASCII letters, `a` to `z`, with at least one.
pub open spec fn is_lowercase_word(w: Seq<char>) -> bool {
    w.len() > 0 && forall|i: int| 0 <= i < w.len() ==> 97 <= (#[trigger] w[i] as u32) <= 122
}

proof fn lemma_strip_marks_ascii(s: Seq<char>)
    requires
        is_ascii_text(s),
    ensures
        strip_marks(s) == s,
    decreases s.len(),
{
    if s.len() > 0 {
        assert(s[s.len() - 1] == s.last());
        lemma_strip_marks_ascii(s.drop_last());
        assert(s.drop_last().push(s.last()) =~= s);
    }
}

/// Replacing a pattern whose first character a text lacks leaves the text as it is.
pub proof fn lemma_replace_absent(s: Seq<char>, pat: Seq<char>, rep: Seq<char>)
    requires
        pat.len() > 0,
        !s.contains(pat[0]),
    ensures
        replace_spec(s, pat, rep) == s,
    decreases s.len(),
{
    if s.len() >= pat.len() {
        assert(s.take(pat.len() as int)[0] == s[0]);
        assert(s.take(pat.len() as int) != pat);
        assert(!s.skip(1).contains(pat[0])) by {
            if s.skip(1).contains(pat[0]) {
                let k = choose|k: int| 0 <= k < s.skip(1).len() && s.skip(1)[k] == pat[0];
                assert(s[k + 1] == pat[0]);
            }
        }
        lemma_replace_absent(s.skip(1), pat, rep);
        assert(seq![s[0]] + s.skip(1) =~= s);
    }
}

proof fn lemma_clean_punctuation_word(s: Seq<char>)
    requires
        forall|i: int| 0 <= i < s.len() ==> 97 <= (#[trigger] s[i] as u32) <= 122,
    ensures
        clean_punctuation_no_dash(s) == s,
    decreases s.len(),
{
    if s.len() > 0 {
        assert(s[s.len() - 1] == s.last());
        lemma_clean_punctuation_word(s.drop_last());
        assert(s.drop_last().push(s.last()) =~= s);
    }
}

/// A word of lower-case ASCII letters comes out of `punctuation_filter` unchanged.
pub proof fn lemma_punctuation_filter_word(w: Seq<char>)
    requires
        is_lowercase_word(w),
    ensures
        punctuation_filter_spec(w) == w,
{
    assert(is_ascii_text(w));
    assert(nfd_spec(w) == w);
    lemma_strip_marks_ascii(w);
    assert(ascii_lower(w) =~= w);
    assert(lowercase_spec(w) == w);
    assert forall|c: char| #[trigger] w.contains(c) implies 97 <= (c as u32) <= 122 by {
        let k = choose|k: int| 0 <= k < w.len() && w[k] == c;
    }
    lemma_replace_absent(w, seq!['\u{2019}', 's'], seq![]);
    lemma_replace_absent(w, seq!['\'', 's'], seq![]);
    lemma_clean_punctuation_word(w);
    lemma_replace_absent(w, red_heart_tag(), seq!['\u{2665}']);
    lemma_replace_absent(w, seq!['\u{2160}'], seq!['I']);
    lemma_replace_absent(w, seq!['\u{2161}'], seq!['I', 'I']);
    lemma_replace_absent(w, seq!['\u{2162}'], seq!['I', 'I', 'I']);
    assert(dashes_to_spaces(w) =~= w);
}

} // verus!
verus! {

fn drop_marks(s: &Vec<char>) -> (r: Vec<char>)
    ensures
        r@ == strip_marks(s@),
{
    let mut out: Vec<char> = Vec::new();
    let mut i: usize = 0;
    while i < s.len()
        invariant
            i <= s.len(),
            out@ == strip_marks(s@.take(i as int)),
        decreases s.len() - i,
    {
        assert(s@.take(i + 1).drop_last() == s@.take(i as int));
        if !is_combining_mark(s[i]) {
            out.push(s[i]);
        }
        i = i + 1;
    }
    assert(s@.take(s.len() as int) == s@);
    out
}

fn drop_punctuation(s: &Vec<char>) -> (r: Vec<char>)
    ensures
        r@ == clean_punctuation_no_dash(s@),
{
    let mut out: Vec<char> = Vec::new();
    let mut i: usize = 0;
    while i < s.len()
        invariant
            i <= s.len(),
            out@ == clean_punctuation_no_dash(s@.take(i as int)),
        decreases s.len() - i,
    {
        assert(s@.take(i + 1).drop_last() == s@.take(i as int));
        let c = s[i];
        if !(c == '(' || c == ')' || c == ',' || c == '"' || c == '.' || c == ';' || c == ':'
            || c == '\'' || c == '?' || c == '!' || c == '\u{2019}' || c == '~' || c == '\u{2026}'
            || c == '\u{2663}' || c == '\u{25c6}') {
            out.push(c);
        }
        i = i + 1;
    }
    assert(s@.take(s.len() as int) == s@);
    out
}

fn spaces_for_dashes(s: &Vec<char>) -> (r: Vec<char>)
    ensures
        r@ == dashes_to_spaces(s@),
{
    let mut out: Vec<char> = Vec::new();
    let mut i: usize = 0;
    while i < s.len()
        invariant
            i <= s.len(),
            out@ == dashes_to_spaces(s@.take(i as int)),
        decreases s.len() - i,
    {
        let c = s[i];
        if c == '-' || c == '/' {
            out.push(' ');
        } else {
            out.push(c);
        }
        i = i + 1;
        assert(dashes_to_spaces(s@.take(i as int)) =~= dashes_to_spaces(s@.take(i - 1)).push(
            if c == '-' || c == '/' { ' ' } else { c },
        ));
    }
    assert(s@.take(s.len() as int) == s@);
    out
}

/// Cleans a token for the index: decomposes it, drops combining marks, lowers its case,
/// removes possessives and punctuation, and spells out symbols.
pub fn punctuation_filter(token: &String) -> (r: String)
    ensures
        r@ == punctuation_filter_spec(token@),
{
    let decomposed = nfd_chars(token.as_str());
    let unmarked = string_of(&drop_marks(&decomposed));
    let lower = chars_of(to_lowercase(unmarked.as_str()).as_str());
    let curly_possessive = vec!['\u{2019}', 's'];
    let straight_possessive = vec!['\'', 's'];
    let nothing: Vec<char> = Vec::new();
    let heart_tag = vec!['<', 'c', 'o', 'l', 'o', 'r', '=', 'r', 'e', 'd', '>', '\u{2665}', '<', '/', 'c', 'o', 'l', 'o', 'r', '>'];
    let heart = vec!['\u{2665}'];
    let one = vec!['\u{2160}'];
    let two = vec!['\u{2161}'];
    let three = vec!['\u{2162}'];
    let i1 = vec!['I'];
    let i2 = vec!['I', 'I'];
    let i3 = vec!['I', 'I', 'I'];
    assert(curly_possessive@ == seq!['\u{2019}', 's']);
    assert(straight_possessive@ == seq!['\'', 's']);
    assert(nothing@ == Seq::<char>::empty());
    assert(heart_tag@ == red_heart_tag());
    assert(heart@ == seq!['\u{2665}']);
    assert(one@ == seq!['\u{2160}']);
    assert(two@ == seq!['\u{2161}']);
    assert(three@ == seq!['\u{2162}']);
    assert(i1@ == seq!['I']);
    assert(i2@ == seq!['I', 'I']);
    assert(i3@ == seq!['I', 'I', 'I']);
    let a = replace_chars(&lower, &curly_possessive, &nothing);
    let b = replace_chars(&a, &straight_possessive, &nothing);
    let c = drop_punctuation(&b);
    let d = replace_chars(&c, &heart_tag, &heart);
    let e = replace_chars(&d, &one, &i1);
    let f = replace_chars(&e, &two, &i2);
    let g = replace_chars(&f, &three, &i3);
    let h = spaces_for_dashes(&g);
    string_of(&h)
}

/// Whether a token is kept, that is, is not a stop word ("a", "the", "of").
pub fn stopword_filter(token: &String) -> (keep: bool)
    ensures
        keep == !is_stopword(token@),
{
    proof {
        reveal_strlit("a");
        reveal_strlit("the");
        reveal_strlit("of");
    }
    let t = token.as_str();
    assert("a"@ =~= seq!['a']);
    assert("the"@ =~= seq!['t', 'h', 'e']);
    assert("of"@ =~= seq!['o', 'f']);
    !(str_eq(t, "a") || str_eq(t, "the") || str_eq(t, "of"))
}

/// Cleans each token and keeps those that are neither stop words nor empty, in order.
pub fn filter(tokens: Vec<String>) -> (r: Vec<String>)
    ensures
        views(r@) == filter_spec(views(tokens@)),
{
    let mut out: Vec<String> = Vec::new();
    let mut i: usize = 0;
    while i < tokens.len()
        invariant
            i <= tokens.len(),
            views(out@) == filter_spec(views(tokens@.take(i as int))),
        decreases tokens.len() - i,
    {
        assert(views(tokens@.take(i + 1)).drop_last() == views(tokens@.take(i as int)));
        assert(views(tokens@.take(i + 1)).last() == tokens@[i as int]@);
        let p = punctuation_filter(&tokens[i]);
        if stopword_filter(&p) && !p.as_str().is_empty() {
            out.push(p);
            assert(views(out@) == views(out@.drop_last()).push(p@));
        }
        i = i + 1;
    }
    assert(tokens@.take(tokens.len() as int) == tokens@);
    out
}

} // verus!
