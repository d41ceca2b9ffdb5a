use vstd::prelude::*;

use crate::deck::{opt_view, Deck, DeckMetadata, TiphDeck};
use crate::numbers::{decimal, i32_to_decimal, lemma_i32_decimal_round_trip, parse_i32, parse_i32_spec};
use crate::text::str_eq;

verus! {

/// The value of an attribute of a stored item, as far as decks are concerned: a string, a
/// number written in decimal, a null, or a value of any other kind.
#[derive(Debug)]
pub enum AttrValue {
    S(String),
    N(String),
    Null(bool),
    Other,
}

/// The text of a string value.
pub open spec fn text_of(a: AttrValue) -> Option<Seq<char>> {
    match a {
        AttrValue::S(s) => Some(s@),
        _ => None,
    }
}

/// The decimal text of a number value.
pub open spec fn number_text_of(a: AttrValue) -> Option<Seq<char>> {
    match a {
        AttrValue::N(s) => Some(s@),
        _ => None,
    }
}

/// The value of the attribute `key` of an item: that of its first entry with that name.
pub open spec fn lookup(item: Seq<(String, AttrValue)>, key: Seq<char>) -> Option<AttrValue>
    decreases item.len(),
{
    if item.len() == 0 {
        None
    } else if item[0].0@ == key {
        Some(item[0].1)
    } else {
        lookup(item.skip(1), key)
    }
}

/// The attributes that a stored deck must have.
#[derive(Debug, Clone, Copy, PartialEq, Eq, Structural)]
pub enum ItemAttribute {
    DeckName,
    Author,
    AuthorName,
    DeckData,
    Description,
}

/// The name of an attribute in a stored item.
pub open spec fn attribute_key(a: ItemAttribute) -> Seq<char> {
    match a {
        ItemAttribute::DeckName => "deck_name"@,
        ItemAttribute::Author => "author"@,
        ItemAttribute::AuthorName => "author_name"@,
        ItemAttribute::DeckData => "deck_data"@,
        ItemAttribute::Description => "description"@,
    }
}

/// Why a stored item is not a deck.
#[derive(Debug, Clone, Copy, PartialEq, Eq, Structural)]
pub enum DeckItemError {
    /// The item lacks the attribute.
    Missing(ItemAttribute),
    /// The attribute holds something other than a string.
    NotText(ItemAttribute),
}

/// A deck as read back from the store; its cards are still the JSON text they were
/// stored as.
#[derive(Debug)]
pub struct StoredDeck {
    pub name: String,
    pub author_id: String,
    pub author_name: String,
    pub description: Option<String>,
    pub deck_data_json: String,
    pub tiph_deck: Option<TiphDeck>,
}

/// A deck read back, as plain values: name, author id, author name, description, the JSON
/// of its cards, and its Tiphereth code with the code's version.
pub type StoredView = (Seq<char>, Seq<char>, Seq<char>, Option<Seq<char>>, Seq<char>, Option<(Seq<char>, int)>);

/// The Tiphereth code of a deck, with its version, as plain values.
pub open spec fn tiph_view(t: Option<TiphDeck>) -> Option<(Seq<char>, int)> {
    match t {
        Some(t) => Some((t.0@, t.1 as int)),
        None => None,
    }
}

/// A read-back deck as plain values.
pub open spec fn stored_view(d: StoredDeck) -> StoredView {
    (d.name@, d.author_id@, d.author_name@, opt_view(d.description), d.deck_data_json@, tiph_view(d.tiph_deck))
}

/// What a deck is stored as, taken as plain values, given the JSON of its cards.
pub open spec fn deck_view(d: Deck, json: Seq<char>) -> StoredView {
    (d.name@, d.author_id@, d.author_name@, opt_view(d.description), json, tiph_view(d.tiph_deck))
}

/// The text of a string attribute, or why it cannot be had.
pub open spec fn text_attribute(item: Seq<(String, AttrValue)>, a: ItemAttribute) -> Result<Seq<char>, DeckItemError> {
    match lookup(item, attribute_key(a)) {
        None => Err(DeckItemError::Missing(a)),
        Some(v) => match text_of(v) {
            Some(t) => Ok(t),
            None => Err(DeckItemError::NotText(a)),
        },
    }
}

/// The Tiphereth code of a stored deck: present when the item holds the code as a string and
/// its version as a number that reads as an `i32`.
pub open spec fn tiph_of(item: Seq<(String, AttrValue)>) -> Option<(Seq<char>, int)> {
    let code = match lookup(item, "tiph_deck"@) {
        Some(v) => text_of(v),
        None => None,
    };
    let version = match lookup(item, "tiph_version"@) {
        Some(v) => match number_text_of(v) {
            Some(t) => parse_i32_spec(t),
            None => None,
        },
        None => None,
    };
    match (code, version) {
        (Some(c), Some(v)) => Some((c, v)),
        _ => None,
    }
}

/// What reading a stored item as a deck gives. The description must be present, and is
/// read only when it is a string; then the name, the author's id and name, and the cards
/// must be strings, and the first that is not decides the error.
pub open spec fn stored_deck_of(item: Seq<(String, AttrValue)>) -> Result<StoredView, DeckItemError> {
    match lookup(item, "description"@) {
        None => Err(DeckItemError::Missing(ItemAttribute::Description)),
        Some(d) => match text_attribute(item, ItemAttribute::DeckName) {
            Err(e) => Err(e),
            Ok(name) => match text_attribute(item, ItemAttribute::Author) {
                Err(e) => Err(e),
                Ok(author) => match text_attribute(item, ItemAttribute::AuthorName) {
                    Err(e) => Err(e),
                    Ok(author_name) => match text_attribute(item, ItemAttribute::DeckData) {
                        Err(e) => Err(e),
                        Ok(json) => Ok((name, author, author_name, text_of(d), json, tiph_of(item))),
                    },
                },
            },
        },
    }
}

/// What reading a stored item as a listing entry gives: its name, author id and author name.
pub open spec fn metadata_of(item: Seq<(String, AttrValue)>) -> Result<(Seq<char>, Seq<char>, Seq<char>), DeckItemError> {
    match text_attribute(item, ItemAttribute::DeckName) {
        Err(e) => Err(e),
        Ok(name) => match text_attribute(item, ItemAttribute::Author) {
            Err(e) => Err(e),
            Ok(author) => match text_attribute(item, ItemAttribute::AuthorName) {
                Err(e) => Err(e),
                Ok(author_name) => Ok((name, author, author_name)),
            },
        },
    }
}

/// A listing entry as plain values.
pub open spec fn metadata_view(m: DeckMetadata) -> (Seq<char>, Seq<char>, Seq<char>) {
    (m.name@, m.author_id@, m.author_name@)
}

/// The value of the attribute `key` of an item.
pub fn find_attribute<'a>(item: &'a [(String, AttrValue)], key: &str) -> (r: Option<&'a AttrValue>)
    ensures
        match r {
            Some(v) => lookup(item@, key@) == Some(*v),
            None => lookup(item@, key@) is None,
        },
{
    let mut i: usize = 0;
    assert(item@.skip(0) =~= item@);
    while i < item.len()
        invariant
            i <= item.len(),
            lookup(item@, key@) == lookup(item@.skip(i as int), key@),
        decreases item.len() - i,
    {
        let ghost rest = item@.skip(i as int);
        assert(rest[0] == item@[i as int]);
        if str_eq(item[i].0.as_str(), key) {
            return Some(&item[i].1);
        }
        assert(rest.skip(1) =~= item@.skip(i + 1));
        i = i + 1;
    }
    None
}

/// The name of an attribute that a stored deck must have.
pub fn attribute_name(a: ItemAttribute) -> (k: &'static str)
    ensures
        k@ == attribute_key(a),
{
    match a {
        ItemAttribute::DeckName => "deck_name",
        ItemAttribute::Author => "author",
        ItemAttribute::AuthorName => "author_name",
        ItemAttribute::DeckData => "deck_data",
        ItemAttribute::Description => "description",
    }
}

/// Reads a string attribute of an item.
pub fn get_text_attribute(item: &[(String, AttrValue)], a: ItemAttribute) -> (r: Result<String, DeckItemError>)
    ensures
        match r {
            Ok(s) => text_attribute(item@, a) == Ok::<Seq<char>, DeckItemError>(s@),
            Err(e) => text_attribute(item@, a) == Err::<Seq<char>, DeckItemError>(e),
        },
{
    match find_attribute(item, attribute_name(a)) {
        None => Err(DeckItemError::Missing(a)),
        Some(AttrValue::S(s)) => Ok(s.clone()),
        Some(_) => Err(DeckItemError::NotText(a)),
    }
}

/// Reads the Tiphereth code of a stored deck.
fn get_tiph_deck(item: &[(String, AttrValue)]) -> (r: Option<TiphDeck>)
    ensures
        tiph_view(r) == tiph_of(item@),
{
    let code = match find_attribute(item, "tiph_deck") {
        Some(AttrValue::S(s)) => Some(s),
        _ => None,
    };
    let version = match find_attribute(item, "tiph_version") {
        Some(AttrValue::N(t)) => parse_i32(t.as_str()),
        _ => None,
    };
    match (code, version) {
        (Some(c), Some(v)) => Some(TiphDeck(c.clone(), v)),
        _ => None,
    }
}

/// Reads a stored item as a deck.
pub fn deck_from_item(item: &[(String, AttrValue)]) -> (r: Result<StoredDeck, DeckItemError>)
    ensures
        match r {
            Ok(d) => stored_deck_of(item@) == Ok::<StoredView, DeckItemError>(stored_view(d)),
            Err(e) => stored_deck_of(item@) == Err::<StoredView, DeckItemError>(e),
        },
{
    let tiph_deck = get_tiph_deck(item);
    let description = match find_attribute(item, "description") {
        None => {
            return Err(DeckItemError::Missing(ItemAttribute::Description));
        },
        Some(AttrValue::S(s)) => Some(s.clone()),
        Some(_) => None,
    };
    let name = match get_text_attribute(item, ItemAttribute::DeckName) {
        Ok(s) => s,
        Err(e) => {
            return Err(e);
        },
    };
    let author_id = match get_text_attribute(item, ItemAttribute::Author) {
        Ok(s) => s,
        Err(e) => {
            return Err(e);
        },
    };
    let author_name = match get_text_attribute(item, ItemAttribute::AuthorName) {
        Ok(s) => s,
        Err(e) => {
            return Err(e);
        },
    };
    let deck_data_json = match get_text_attribute(item, ItemAttribute::DeckData) {
        Ok(s) => s,
        Err(e) => {
            return Err(e);
        },
    };
    Ok(StoredDeck { name, author_id, author_name, description, deck_data_json, tiph_deck })
}

/// Reads a stored item as a listing entry.
pub fn metadata_from_item(item: &[(String, AttrValue)]) -> (r: Result<DeckMetadata, DeckItemError>)
    ensures
        match r {
            Ok(m) => metadata_of(item@) == Ok::<(Seq<char>, Seq<char>, Seq<char>), DeckItemError>(metadata_view(m)),
            Err(e) => metadata_of(item@) == Err::<(Seq<char>, Seq<char>, Seq<char>), DeckItemError>(e),
        },
{
    let name = match get_text_attribute(item, ItemAttribute::DeckName) {
        Ok(s) => s,
        Err(e) => {
            return Err(e);
        },
    };
    let author_id = match get_text_attribute(item, ItemAttribute::Author) {
        Ok(s) => s,
        Err(e) => {
            return Err(e);
        },
    };
    let author_name = match get_text_attribute(item, ItemAttribute::AuthorName) {
        Ok(s) => s,
        Err(e) => {
            return Err(e);
        },
    };
    Ok(DeckMetadata { name, author_id, author_name })
}


/// Whether an entry is the string `t` under the name `key`.
pub open spec fn text_entry(e: (String, AttrValue), key: Seq<char>, t: Seq<char>) -> bool {
    e.0@ == key && text_of(e.1) == Some(t)
}

/// Whether an entry is the string `t` under the name `key` where there is one, and a null
/// there otherwise.
pub open spec fn optional_text_entry(e: (String, AttrValue), key: Seq<char>, t: Option<Seq<char>>) -> bool {
    match t {
        Some(t) => text_entry(e, key, t),
        None => e.0@ == key && e.1 == AttrValue::Null(true),
    }
}

/// Whether `item` is what a deck is stored as, given the JSON of its cards: its author's id
/// and name, its name, its cards, its description or a null, its key page or a null (by
/// which decks are listed per key page), and, for a deck with a Tiphereth code, the code and
/// its version written in decimal.
pub open spec fn is_deck_item(item: Seq<(String, AttrValue)>, deck: Deck, json: Seq<char>) -> bool {
    &&& item.len() == (if deck.tiph_deck is Some { 8int } else { 6int })
    &&& text_entry(item[0], "author"@, deck.author_id@)
    &&& text_entry(item[1], "author_name"@, deck.author_name@)
    &&& text_entry(item[2], "deck_name"@, deck.name@)
    &&& text_entry(item[3], "deck_data"@, json)
    &&& optional_text_entry(item[4], "description"@, opt_view(deck.description))
    &&& optional_text_entry(item[5], "keypage"@, opt_view(deck.deck_data.keypage_id))
    &&& (deck.tiph_deck matches Some(t) ==> {
        &&& text_entry(item[6], "tiph_deck"@, t.0@)
        &&& item[7].0@ == "tiph_version"@
        &&& number_text_of(item[7].1) == Some(decimal(t.1 as int))
    })
}

/// A string value holding a copy of `s`.
fn text_value(s: &String) -> (v: AttrValue)
    ensures
        text_of(v) == Some(s@),
{
    AttrValue::S(s.clone())
}

/// A string value holding a copy of `s`, or a null where there is none.
fn optional_text_value(s: &Option<String>) -> (v: AttrValue)
    ensures
        match opt_view(*s) {
            Some(t) => text_of(v) == Some(t),
            None => v == AttrValue::Null(true),
        },
{
    match s {
        Some(t) => AttrValue::S(t.clone()),
        None => AttrValue::Null(true),
    }
}

/// The item a deck is stored as, given the JSON text of its cards.
pub fn deck_to_item(deck: &Deck, deck_data_json: &str) -> (item: Vec<(String, AttrValue)>)
    ensures
        is_deck_item(item@, *deck, deck_data_json@),
{
    let mut item: Vec<(String, AttrValue)> = Vec::new();
    item.push(("author".to_owned(), text_value(&deck.author_id)));
    item.push(("author_name".to_owned(), text_value(&deck.author_name)));
    item.push(("deck_name".to_owned(), text_value(&deck.name)));
    item.push(("deck_data".to_owned(), AttrValue::S(deck_data_json.to_owned())));
    item.push(("description".to_owned(), optional_text_value(&deck.description)));
    item.push(("keypage".to_owned(), optional_text_value(&deck.deck_data.keypage_id)));
    if let Some(tiph) = &deck.tiph_deck {
        item.push(("tiph_deck".to_owned(), text_value(&tiph.0)));
        item.push(("tiph_version".to_owned(), AttrValue::N(i32_to_decimal(tiph.1))));
    }
    item
}

/// A stored deck reads back as the deck it was stored from, with the same JSON of its cards;
/// as a listing entry it reads as the deck's name, author id and author name.
pub proof fn lemma_deck_item_round_trip(item: Seq<(String, AttrValue)>, deck: Deck, json: Seq<char>)
    requires
        is_deck_item(item, deck, json),
    ensures
        stored_deck_of(item) == Ok::<StoredView, DeckItemError>(deck_view(deck, json)),
        metadata_of(item) == Ok::<(Seq<char>, Seq<char>, Seq<char>), DeckItemError>((deck.name@, deck.author_id@, deck.author_name@)),
{
    reveal_strlit("author");
    reveal_strlit("author_name");
    reveal_strlit("deck_name");
    reveal_strlit("deck_data");
    reveal_strlit("description");
    reveal_strlit("keypage");
    reveal_strlit("tiph_deck");
    reveal_strlit("tiph_version");
    let keys = seq!["author"@, "author_name"@, "deck_name"@, "deck_data"@, "description"@, "keypage"@, "tiph_deck"@, "tiph_version"@];
    assert forall|i: int| 0 <= i < item.len() implies #[trigger] item[i].0@ == keys[i] by {}
    assert forall|i: int, j: int| 0 <= i < j < 8 implies #[trigger] keys[i] != #[trigger] keys[j] by {
        if keys[i].len() == keys[j].len() {
            assert(keys[i][0] != keys[j][0] || keys[i][1] != keys[j][1] || keys[i][7] != keys[j][7]);
        }
    }
    lemma_lookup_at(item, keys, 0);
    lemma_lookup_at(item, keys, 1);
    lemma_lookup_at(item, keys, 2);
    lemma_lookup_at(item, keys, 3);
    lemma_lookup_at(item, keys, 4);
    match deck.tiph_deck {
        Some(t) => {
            lemma_lookup_at(item, keys, 6);
            lemma_lookup_at(item, keys, 7);
            lemma_i32_decimal_round_trip(t.1);
        },
        None => {
            lemma_lookup_absent(item, keys, 6);
            lemma_lookup_absent(item, keys, 7);
        },
    }
}

/// In an item whose names are distinct, looking up the name of its `k`-th entry finds that
/// entry.
proof fn lemma_lookup_at(item: Seq<(String, AttrValue)>, keys: Seq<Seq<char>>, k: int)
    requires
        0 <= k < item.len() <= keys.len(),
        forall|i: int| 0 <= i < item.len() ==> #[trigger] item[i].0@ == keys[i],
        forall|i: int, j: int| 0 <= i < j < keys.len() ==> #[trigger] keys[i] != #[trigger] keys[j],
    ensures
        lookup(item, keys[k]) == Some(item[k].1),
    decreases k,
{
    if k > 0 {
        assert(keys[0] != keys[k]);
        lemma_lookup_at(item.skip(1), keys.skip(1), k - 1);
        assert(keys.skip(1)[k - 1] == keys[k]);
    }
}

/// In an item whose names are distinct and come from `keys`, a name of `keys` past the
/// item's end is absent.
proof fn lemma_lookup_absent(item: Seq<(String, AttrValue)>, keys: Seq<Seq<char>>, k: int)
    requires
        item.len() <= k < keys.len(),
        forall|i: int| 0 <= i < item.len() ==> #[trigger] item[i].0@ == keys[i],
        forall|i: int, j: int| 0 <= i < j < keys.len() ==> #[trigger] keys[i] != #[trigger] keys[j],
    ensures
        lookup(item, keys[k]) is None,
    decreases item.len(),
{
    if item.len() > 0 {
        assert(keys[0] != keys[k]);
        lemma_lookup_absent(item.skip(1), keys.skip(1), k - 1);
        assert(keys.skip(1)[k - 1] == keys[k]);
    }
}


/// The key of a stored deck: its author's id and its name.
pub fn deck_key_item(name: &str, author: &str) -> (item: Vec<(String, AttrValue)>)
    ensures
        item.len() == 2,
        text_entry(item[0], "author"@, author@),
        text_entry(item[1], "deck_name"@, name@),
{
    let mut item: Vec<(String, AttrValue)> = Vec::new();
    item.push(("author".to_owned(), AttrValue::S(author.to_owned())));
    item.push(("deck_name".to_owned(), AttrValue::S(name.to_owned())));
    item
}

/// The condition under which a deck is written: none where it may replace a stored one,
/// else that no deck is stored under its key.
pub fn put_condition(overwrite: bool) -> (c: Option<&'static str>)
    ensures
        match c {
            Some(t) => !overwrite && t@ == "attribute_not_exists(author)"@,
            None => overwrite,
        },
{
    if overwrite {
        None
    } else {
        Some("attribute_not_exists(author)")
    }
}

/// The attributes that a listing reads of each deck.
pub fn listing_projection() -> (p: &'static str)
    ensures
        p@ == "author, author_name, deck_name"@,
{
    "author, author_name, deck_name"
}

/// How the decks to list are found.
#[derive(Debug)]
pub enum DeckListing {
    /// Every stored deck is read.
    Scan,
    /// The decks that the key condition selects are read, through the named index where
    /// there is one; the values are those that the condition names.
    Query { index_name: Option<String>, values: Vec<(String, AttrValue)>, key_condition: String },
}

/// A string argument as plain values.
pub open spec fn str_opt_view(o: Option<&str>) -> Option<Seq<char>> {
    match o {
        Some(s) => Some(s@),
        None => None,
    }
}

/// How decks are listed by author, by key page, or both: with neither every deck is read;
/// else a query selects them, through the key page index where a key page is given.
pub open spec fn listing_spec(l: DeckListing, author: Option<Seq<char>>, keypage: Option<Seq<char>>) -> bool {
    match (author, keypage) {
        (None, None) => l is Scan,
        (Some(a), None) => l matches DeckListing::Query { index_name, values, key_condition } && {
            &&& index_name is None
            &&& values.len() == 1
            &&& text_entry(values[0], ":author"@, a)
            &&& key_condition@ == "author = :author"@
        },
        (None, Some(k)) => l matches DeckListing::Query { index_name, values, key_condition } && {
            &&& opt_view(index_name) == Some("gsi1"@)
            &&& values.len() == 1
            &&& text_entry(values[0], ":keypage"@, k)
            &&& key_condition@ == "keypage = :keypage"@
        },
        (Some(a), Some(k)) => l matches DeckListing::Query { index_name, values, key_condition } && {
            &&& opt_view(index_name) == Some("gsi1"@)
            &&& values.len() == 2
            &&& text_entry(values[0], ":keypage"@, k)
            &&& text_entry(values[1], ":author"@, a)
            &&& key_condition@ == "keypage = :keypage and author = :author"@
        },
    }
}

/// How to find the decks of an author, of a key page, of both, or all decks.
pub fn list_decks_plan(author: Option<&str>, keypage_id: Option<&str>) -> (l: DeckListing)
    ensures
        listing_spec(l, str_opt_view(author), str_opt_view(keypage_id)),
{
    match (author, keypage_id) {
        (None, None) => DeckListing::Scan,
        (Some(a), None) => {
            let mut values: Vec<(String, AttrValue)> = Vec::new();
            values.push((":author".to_owned(), AttrValue::S(a.to_owned())));
            DeckListing::Query { index_name: None, values, key_condition: "author = :author".to_owned() }
        },
        (None, Some(k)) => {
            let mut values: Vec<(String, AttrValue)> = Vec::new();
            values.push((":keypage".to_owned(), AttrValue::S(k.to_owned())));
            DeckListing::Query {
                index_name: Some("gsi1".to_owned()),
                values,
                key_condition: "keypage = :keypage".to_owned(),
            }
        },
        (Some(a), Some(k)) => {
            let mut values: Vec<(String, AttrValue)> = Vec::new();
            values.push((":keypage".to_owned(), AttrValue::S(k.to_owned())));
            values.push((":author".to_owned(), AttrValue::S(a.to_owned())));
            DeckListing::Query {
                index_name: Some("gsi1".to_owned()),
                values,
                key_condition: "keypage = :keypage and author = :author".to_owned(),
            }
        },
    }
}

/// Reads listed items as listing entries, in order; the first item that is not one decides
/// the error.
pub fn metadata_from_items(items: &[Vec<(String, AttrValue)>]) -> (r: Result<Vec<DeckMetadata>, DeckItemError>)
    ensures
        match r {
            Ok(v) => v.len() == items.len() && forall|i: int| 0 <= i < items.len() ==>
                metadata_of(#[trigger] items@[i]@) == Ok::<(Seq<char>, Seq<char>, Seq<char>), DeckItemError>(metadata_view(v@[i])),
            Err(e) => exists|k: int| 0 <= k < items.len() && metadata_of(#[trigger] items@[k]@)
                == Err::<(Seq<char>, Seq<char>, Seq<char>), DeckItemError>(e)
                && forall|j: int| 0 <= j < k ==> metadata_of(#[trigger] items@[j]@) is Ok,
        },
{
    let mut out: Vec<DeckMetadata> = Vec::new();
    let mut i: usize = 0;
    while i < items.len()
        invariant
            i <= items.len(),
            out.len() == i,
            forall|j: int| 0 <= j < i ==>
                metadata_of(#[trigger] items@[j]@) == Ok::<(Seq<char>, Seq<char>, Seq<char>), DeckItemError>(metadata_view(out@[j])),
        decreases items.len() - i,
    {
        match metadata_from_item(items[i].as_slice()) {
            Ok(m) => out.push(m),
            Err(e) => {
                assert(forall|j: int| 0 <= j < i ==> metadata_of(#[trigger] items@[j]@) is Ok);
                return Err(e);
            },
        }
        i = i + 1;
    }
    Ok(out)
}

} // verus!
