use vstd::prelude::*;

use crate::analyzer::{
    assoc_map, generate_inverse_index, inverse_view, inverts, doc_tally_maps, lemma_touched_in_range,
    ngram_list, query, ranked, tally,
};
use crate::numbers::{decimal, digits, i32_to_decimal, u64_to_upper_hex};
use crate::text::{chars_of, join_spec, join_two, join_with, string_of_range, views};

verus! {

/// The cards of a deck: a key page, passives, and exactly nine combat page slots.
#[derive(Debug)]
pub struct DeckData {
    pub keypage_id: Option<String>,
    pub passive_ids: Vec<String>,
    pub combat_page_ids: [Option<String>; 9],
}

/// A deck's code on Tiphereth, with the version of the code.
#[derive(Debug)]
pub struct TiphDeck(pub String, pub i32);

/// A saved deck.
#[derive(Debug)]
pub struct Deck {
    pub name: String,
    pub author_id: String,
    pub author_name: String,
    pub description: Option<String>,
    pub deck_data: DeckData,
    pub tiph_deck: Option<TiphDeck>,
}

/// What a listing shows of a saved deck.
#[derive(Debug)]
pub struct DeckMetadata {
    pub name: String,
    pub author_id: String,
    pub author_name: String,
}

/// The key of a saved deck: its author's id and its name.
#[derive(Debug)]
pub struct DeckKey(pub String, pub String);

/// Why a deck cannot be saved.
#[derive(Debug, Clone, Copy, PartialEq, Eq, Structural)]
pub enum DeckValidationError {
    MissingCombatPages,
    MissingKeypage,
}

/// The message key of a validation error.
pub open spec fn error_key(e: DeckValidationError) -> Seq<char> {
    match e {
        DeckValidationError::MissingCombatPages => "missing_combat_pages_error_message"@,
        DeckValidationError::MissingKeypage => "missing_keypage_error_message"@,
    }
}

impl DeckValidationError {
    /// The key of the message that explains the error.
    pub fn as_error_key(&self) -> (k: &'static str)
        ensures
            k@ == error_key(*self),
    {
        match self {
            DeckValidationError::MissingCombatPages => "missing_combat_pages_error_message",
            DeckValidationError::MissingKeypage => "missing_keypage_error_message",
        }
    }
}

/// Whether every combat page slot of a deck is filled.
pub open spec fn all_slots_filled(pages: Seq<Option<String>>) -> bool {
    forall|i: int| 0 <= i < pages.len() ==> #[trigger] pages[i] is Some
}

/// Checks that a deck is complete: missing combat pages are reported first, then a missing
/// key page.
pub fn validate_deck(deck_data: &DeckData) -> (r: Result<(), DeckValidationError>)
    ensures
        r == (if !all_slots_filled(deck_data.combat_page_ids@) {
            Err(DeckValidationError::MissingCombatPages)
        } else if deck_data.keypage_id is None {
            Err(DeckValidationError::MissingKeypage)
        } else {
            Ok(())
        }),
{
    let mut i: usize = 0;
    while i < 9
        invariant
            i <= 9,
            deck_data.combat_page_ids@.len() == 9,
            forall|j: int| 0 <= j < i ==> #[trigger] deck_data.combat_page_ids@[j] is Some,
        decreases 9 - i,
    {
        if deck_data.combat_page_ids[i].is_none() {
            assert(!(deck_data.combat_page_ids@[i as int] is Some));
            return Err(DeckValidationError::MissingCombatPages);
        }
        i = i + 1;
    }
    if deck_data.keypage_id.is_none() {
        return Err(DeckValidationError::MissingKeypage);
    }
    Ok(())
}

/// The position of the first `#`.
pub open spec fn first_hash(value: Seq<char>) -> int
    decreases value.len(),
{
    if value.len() == 0 {
        -1
    } else if value[0] == '#' {
        0
    } else if first_hash(value.skip(1)) < 0 {
        -1
    } else {
        first_hash(value.skip(1)) + 1
    }
}

pub proof fn lemma_first_hash(value: Seq<char>, i: int)
    requires
        0 <= i < value.len(),
        value[i] == '#',
        forall|j: int| 0 <= j < i ==> value[j] != '#',
    ensures
        first_hash(value) == i,
    decreases i,
{
    if i > 0 {
        lemma_first_hash(value.skip(1), i - 1);
    }
}

/// The key in a deck value: the author before the first `#` and the name after it, or
/// none when the value has no `#`.
pub open spec fn deck_key_of(value: Seq<char>) -> Option<(Seq<char>, Seq<char>)> {
    let i = first_hash(value);
    if i >= 0 {
        Some((value.take(i), value.skip(i + 1)))
    } else {
        None
    }
}

proof fn lemma_first_hash_absent(value: Seq<char>)
    requires
        forall|j: int| 0 <= j < value.len() ==> value[j] != '#',
    ensures
        first_hash(value) == -1,
    decreases value.len(),
{
    if value.len() > 0 {
        lemma_first_hash_absent(value.skip(1));
    }
}

/// Reads the value of a deck option, `author#name`: the author is what comes before the
/// first `#`, the name all that follows it; text without `#` names no deck.
pub fn parse_deck_name_option(name_option: &str) -> (r: Result<DeckKey, ()>)
    ensures
        match r {
            Ok(k) => exists|i: int|
                0 <= i < name_option@.len() && name_option@[i] == '#' && (forall|j: int|
                    0 <= j < i ==> name_option@[j] != '#') && k.0@ == name_option@.take(i)
                    && k.1@ == name_option@.skip(i + 1),
            Err(_) => forall|i: int| 0 <= i < name_option@.len() ==> name_option@[i] != '#',
        },
        match r {
            Ok(k) => deck_key_of(name_option@) == Some((k.0@, k.1@)),
            Err(_) => deck_key_of(name_option@) is None,
        },
{
    let chars = chars_of(name_option);
    let mut i: usize = 0;
    while i < chars.len()
        invariant
            i <= chars.len(),
            chars@ == name_option@,
            forall|j: int| 0 <= j < i ==> chars@[j] != '#',
        decreases chars.len() - i,
    {
        if chars[i] == '#' {
            let author = string_of_range(&chars, 0, i);
            let name = string_of_range(&chars, i + 1, chars.len());
            assert(chars@.subrange(0, i as int) == name_option@.take(i as int));
            assert(chars@.subrange(i + 1, chars.len() as int) == name_option@.skip(i + 1));
            proof {
                lemma_first_hash(name_option@, i as int);
            }
            return Ok(DeckKey(author, name));
        }
        i = i + 1;
    }
    proof {
        lemma_first_hash_absent(name_option@);
    }
    Err(())
}

/// The n-gram counts of the names of some decks, by position.
pub open spec fn deck_name_maps(decks: Seq<DeckMetadata>) -> Seq<Map<Seq<char>, nat>> {
    decks.map_values(|d: DeckMetadata| assoc_map(tally(ngram_list(d.name@))))
}

/// The decks whose names best match `query_text`, at most `top` of them, best first: the
/// first `top` of a ranking of the names by the search index.
pub fn get_top_matches<'a>(query_text: &str, decks: &'a Vec<DeckMetadata>, top: usize) -> (r: Vec<
    &'a DeckMetadata,
>)
    ensures
        exists|m: Map<Seq<char>, Map<usize, nat>>, found: Seq<usize>|
            #![trigger inverts(m, deck_name_maps(decks@)), ranked(found, tally(ngram_list(query_text@)), m)]
            inverts(m, deck_name_maps(decks@)) && ranked(found, tally(ngram_list(query_text@)), m)
                && r.len() == (if top < found.len() { top as int } else { found.len() as int })
                && forall|k: int| 0 <= k < r.len() ==> *r@[k] == decks@[found[k] as int],
{
    let mut names: Vec<String> = Vec::new();
    let mut i: usize = 0;
    while i < decks.len()
        invariant
            i <= decks.len(),
            names.len() == i,
            forall|j: int| 0 <= j < i ==> #[trigger] names@[j]@ == decks@[j].name@,
        decreases decks.len() - i,
    {
        names.push(decks[i].name.clone());
        i = i + 1;
    }
    let inv = generate_inverse_index(&names);
    let found = query(query_text, &inv);
    let ghost q = tally(ngram_list(query_text@));
    let ghost m = inverse_view(inv@);
    assert(doc_tally_maps(names@) =~= deck_name_maps(decks@));
    assert(ranked(found@, q, m));
    let n: usize = if top < found.len() { top } else { found.len() };
    let mut r: Vec<&'a DeckMetadata> = Vec::new();
    let mut k: usize = 0;
    while k < n
        invariant
            k <= n <= found.len(),
            r.len() == k,
            inverts(m, deck_name_maps(decks@)),
            ranked(found@, q, m),
            forall|j: int| 0 <= j < k ==> *r@[j] == decks@[found@[j] as int],
        decreases n - k,
    {
        assert(found@.contains(found@[k as int]));
        proof {
            lemma_touched_in_range(q, m, deck_name_maps(decks@), found@[k as int]);
        }
        r.push(&decks[found[k]]);
        k = k + 1;
    }
    r
}

/// The value of a deck choice: `author#name`.
pub fn get_discord_option_value(deck: &DeckMetadata) -> (s: String)
    ensures
        s@ == deck.author_id@.push('#') + deck.name@,
{
    join_two(deck.author_id.as_str(), '#', deck.name.as_str())
}

/// The text of an optional string.
pub open spec fn opt_view(o: Option<String>) -> Option<Seq<char>> {
    match o {
        Some(s) => Some(s@),
        None => None,
    }
}

/// The decimal text of an optional number.
pub open spec fn opt_decimal(o: Option<i32>) -> Option<Seq<char>> {
    match o {
        Some(x) => Some(decimal(x as int)),
        None => None,
    }
}

/// The `i`-th combat page slot of a deck decoded from its cards.
fn card_slot(cards: &Vec<i32>, i: usize) -> (slot: Option<String>)
    ensures
        opt_view(slot) == (if i < cards.len() { Some(decimal(cards@[i as int] as int)) } else { None }),
{
    if i < cards.len() {
        Some(i32_to_decimal(cards[i]))
    } else {
        None
    }
}

/// The deck that Tiphereth describes by card numbers: the first nine cards fill the combat
/// page slots in order, empty slots stay empty, and later cards are dropped.
pub fn deck_data_from_tiph(cards: &Vec<i32>, keypage: Option<i32>, passives: &Vec<i32>) -> (d: DeckData)
    ensures
        opt_view(d.keypage_id) == opt_decimal(keypage),
        d.passive_ids.len() == passives.len(),
        forall|i: int| 0 <= i < passives.len() ==> #[trigger] d.passive_ids@[i]@ == decimal(passives@[i] as int),
        forall|i: int| 0 <= i < 9 ==> #[trigger] opt_view(d.combat_page_ids@[i]) == (if i < cards.len() {
            Some(decimal(cards@[i] as int))
        } else {
            None
        }),
{
    let keypage_id = match keypage {
        Some(x) => Some(i32_to_decimal(x)),
        None => None,
    };
    let mut passive_ids: Vec<String> = Vec::new();
    let mut i: usize = 0;
    while i < passives.len()
        invariant
            i <= passives.len(),
            passive_ids.len() == i,
            forall|j: int| 0 <= j < i ==> #[trigger] passive_ids@[j]@ == decimal(passives@[j] as int),
        decreases passives.len() - i,
    {
        passive_ids.push(i32_to_decimal(passives[i]));
        i = i + 1;
    }
    let combat_page_ids = [
        card_slot(cards, 0),
        card_slot(cards, 1),
        card_slot(cards, 2),
        card_slot(cards, 3),
        card_slot(cards, 4),
        card_slot(cards, 5),
        card_slot(cards, 6),
        card_slot(cards, 7),
        card_slot(cards, 8),
    ];
    DeckData { keypage_id, passive_ids, combat_page_ids }
}

/// Pairs of strings seen as plain values.
pub open spec fn pair_views(v: Seq<(String, String)>) -> Seq<(Seq<char>, Seq<char>)> {
    v.map_values(|e: (String, String)| (e.0@, e.1@))
}

/// The parameters that ask Tiphereth to encode a deck: `k` and the key page when there is
/// one, `p` and each passive, then `c` and each combat page slot, `-1` for an empty one.
pub open spec fn encode_params_spec(d: DeckData) -> Seq<(Seq<char>, Seq<char>)> {
    let k: Seq<(Seq<char>, Seq<char>)> = match d.keypage_id {
        Some(x) => seq![(seq!['k'], x@)],
        None => Seq::empty(),
    };
    let p = d.passive_ids@.map_values(|x: String| (seq!['p'], x@));
    let c = d.combat_page_ids@.map_values(|x: Option<String>| (seq!['c'], match x {
        Some(y) => y@,
        None => seq!['-', '1'],
    }));
    k + p + c
}

/// The parameters that encode a deck hold the key page first, where there is one, then one
/// `p` parameter for every passive, in order, and exactly those, then one `c` parameter for
/// each of the nine combat page slots, in order.
pub proof fn lemma_encode_params_keep_every_card(d: DeckData)
    ensures
        ({
            let ps = encode_params_spec(d);
            let kn: int = if d.keypage_id is Some { 1 } else { 0 };
            let np = d.passive_ids@.len() as int;
            &&& ps.len() == kn + np + 9
            &&& d.keypage_id is Some ==> ps[0] == (seq!['k'], d.keypage_id->Some_0@)
            &&& forall|i: int| 0 <= i < np ==> #[trigger] ps[kn + i] == (seq!['p'], d.passive_ids@[i]@)
            &&& forall|j: int| 0 <= j < ps.len() ==> (#[trigger] ps[j].0 == seq!['p'] <==> kn <= j < kn + np)
            &&& forall|j: int| 0 <= j < 9 ==> #[trigger] ps[kn + np + j] == (seq!['c'], match d.combat_page_ids@[j] {
                Some(y) => y@,
                None => seq!['-', '1'],
            })
        }),
{
    let ps = encode_params_spec(d);
    let kn: int = if d.keypage_id is Some { 1 } else { 0 };
    let np = d.passive_ids@.len() as int;
    assert(seq!['k'] != seq!['p']) by {
        assert(seq!['k'][0] != seq!['p'][0]);
    }
    assert(seq!['c'] != seq!['p']) by {
        assert(seq!['c'][0] != seq!['p'][0]);
    }
    assert forall|j: int| 0 <= j < ps.len() implies (#[trigger] ps[j].0 == seq!['p'] <==> kn <= j < kn + np) by {
        if j < kn {
            assert(ps[j].0 == seq!['k']);
        } else if j >= kn + np {
            assert(ps[j].0 == seq!['c']);
        }
    }
}

/// The query parameters of a request to encode `deck_data` on Tiphereth.
pub fn tiph_encode_params(deck_data: &DeckData) -> (params: Vec<(String, String)>)
    ensures
        pair_views(params@) == encode_params_spec(*deck_data),
{
    proof {
        reveal_strlit("k");
        reveal_strlit("p");
        reveal_strlit("c");
        reveal_strlit("-1");
    }
    assert("k"@ =~= seq!['k']);
    assert("p"@ =~= seq!['p']);
    assert("c"@ =~= seq!['c']);
    assert("-1"@ =~= seq!['-', '1']);
    let mut params: Vec<(String, String)> = Vec::new();
    match &deck_data.keypage_id {
        Some(x) => {
            params.push(("k".to_owned(), x.clone()));
        },
        None => {},
    }
    let ghost k = pair_views(params@);
    assert(k == match deck_data.keypage_id {
        Some(x) => seq![(seq!['k'], x@)],
        None => Seq::<(Seq<char>, Seq<char>)>::empty(),
    });
    let ghost p = deck_data.passive_ids@.map_values(|x: String| (seq!['p'], x@));
    let mut i: usize = 0;
    while i < deck_data.passive_ids.len()
        invariant
            i <= deck_data.passive_ids.len(),
            pair_views(params@) == k + p.take(i as int),
            p == deck_data.passive_ids@.map_values(|x: String| (seq!['p'], x@)),
            "p"@ == seq!['p'],
        decreases deck_data.passive_ids.len() - i,
    {
        let ghost before = params@;
        let key = "p".to_owned();
        let val = deck_data.passive_ids[i].clone();
        assert(key@ == seq!['p']);
        params.push((key, val));
        assert(pair_views(params@) =~= pair_views(before).push((seq!['p'], val@)));
        i = i + 1;
        assert(p.take(i as int) == p.take(i - 1).push(p[i - 1]));
        assert(pair_views(params@) =~= k + p.take(i as int));
    }
    assert(p.take(p.len() as int) == p);
    let ghost c = deck_data.combat_page_ids@.map_values(|x: Option<String>| (seq!['c'], match x {
        Some(y) => y@,
        None => seq!['-', '1'],
    }));
    let mut j: usize = 0;
    while j < 9
        invariant
            j <= 9,
            deck_data.combat_page_ids@.len() == 9,
            pair_views(params@) == k + p + c.take(j as int),
            c == deck_data.combat_page_ids@.map_values(|x: Option<String>| (seq!['c'], match x {
                Some(y) => y@,
                None => seq!['-', '1'],
            })),
            "c"@ == seq!['c'],
            "-1"@ == seq!['-', '1'],
        decreases 9 - j,
    {
        let v = match &deck_data.combat_page_ids[j] {
            Some(y) => y.clone(),
            None => "-1".to_owned(),
        };
        let ghost before = params@;
        let key = "c".to_owned();
        assert(key@ == seq!['c']);
        assert(v@ == c[j as int].1);
        params.push((key, v));
        assert(pair_views(params@) =~= pair_views(before).push((seq!['c'], v@)));
        j = j + 1;
        assert(c.take(j as int) == c.take(j - 1).push(c[j - 1]));
        assert(pair_views(params@) =~= k + p + c.take(j as int));
    }
    assert(c.take(9) == c);
    params
}

/// What stands in a thumbnail for a combat page slot: its page, or `0` when it is empty.
pub open spec fn resolved(o: Option<String>) -> Seq<char> {
    match o {
        Some(s) => s@,
        None => seq!['0'],
    }
}

/// One combat page slot, resolved.
fn resolve_slot(o: &Option<String>) -> (s: String)
    ensures
        s@ == resolved(*o),
{
    proof {
        reveal_strlit("0");
    }
    match o {
        Some(s) => s.clone(),
        None => "0".to_owned(),
    }
}

/// The nine combat page slots, with `0` for the empty ones.
pub fn resolve_optional(combat_pages: &[Option<String>; 9]) -> (r: [String; 9])
    ensures
        forall|i: int| 0 <= i < 9 ==> #[trigger] r@[i]@ == resolved(combat_pages@[i]),
{
    [
        resolve_slot(&combat_pages[0]),
        resolve_slot(&combat_pages[1]),
        resolve_slot(&combat_pages[2]),
        resolve_slot(&combat_pages[3]),
        resolve_slot(&combat_pages[4]),
        resolve_slot(&combat_pages[5]),
        resolve_slot(&combat_pages[6]),
        resolve_slot(&combat_pages[7]),
        resolve_slot(&combat_pages[8]),
    ]
}

/// What `xxhash_rust::xxh3::xxh3_64` returns for some bytes.
pub uninterp spec fn xxh3_64_spec(data: Seq<u8>) -> u64;

/// Calls `xxhash_rust::xxh3::xxh3_64`. The contract says only that the hash is a function
/// of the bytes (named `xxh3_64_spec`); the XXH3 algorithm itself is not stated.
#[verifier::external_body]
fn xxh3_64_of(data: &[u8]) -> (h: u64)
    ensures
        h == xxh3_64_spec(data@),
{
    xxhash_rust::xxh3::xxh3_64(data)
}

/// The text that a deck's thumbnail is named after: its resolved slots joined by `#`.
pub open spec fn thumb_key(pages: Seq<Option<String>>) -> Seq<char> {
    join_spec(pages.map_values(|o: Option<String>| resolved(o)), '#')
}

/// The name of a deck's thumbnail: the XXH3 hash of the UTF-8 bytes of its key, in upper-case
/// hexadecimal.
pub fn generate_thumb_name(combat_pages: &[Option<String>; 9]) -> (name: String)
    ensures
        name@ == digits(xxh3_64_spec(vstd::utf8::encode_utf8(thumb_key(combat_pages@))) as nat, 16),
{
    let resolved_pages = resolve_optional(combat_pages);
    let key = join_with(resolved_pages.as_slice(), '#');
    assert(views(resolved_pages@) =~= combat_pages@.map_values(|o: Option<String>| resolved(o)));
    let bytes = key.as_str().as_bytes();
    let h = xxh3_64_of(bytes);
    u64_to_upper_hex(h)
}

} // verus!
verus! {

/// A deck choice's value reads back as the deck's key, its author and its name, when the
/// author's id holds no `#`, as Discord's numeric ids do not.
pub proof fn lemma_deck_option_value_round_trip(author_id: Seq<char>, name: Seq<char>)
    requires
        !author_id.contains('#'),
    ensures
        deck_key_of(author_id.push('#') + name) == Some((author_id, name)),
{
    let value = author_id.push('#') + name;
    let i = author_id.len() as int;
    assert(value.take(i) =~= author_id);
    assert(value.skip(i + 1) =~= name);
    assert forall|j: int| 0 <= j < i implies value[j] != '#' by {
        assert(value[j] == author_id[j]);
        if author_id[j] == '#' {
            assert(author_id.contains('#'));
        }
    }
    lemma_first_hash(value, i);
}

} // verus!
