use binah_bot::deck::{Deck, DeckData, TiphDeck};
use binah_bot::deck_store::{
    deck_from_item, deck_key_item, deck_to_item, list_decks_plan, listing_projection, metadata_from_item,
    metadata_from_items, put_condition, AttrValue, DeckItemError, DeckListing, ItemAttribute,
};

fn sample_deck(tiph: Option<TiphDeck>, description: Option<&str>, keypage: Option<&str>) -> Deck {
    let mut pages: [Option<String>; 9] = Default::default();
    pages[0] = Some("101".to_string());
    Deck {
        name: "my deck".to_string(),
        author_id: "1234".to_string(),
        author_name: "angela".to_string(),
        description: description.map(|d| d.to_string()),
        deck_data: DeckData {
            keypage_id: keypage.map(|k| k.to_string()),
            passive_ids: vec!["7".to_string()],
            combat_page_ids: pages,
        },
        tiph_deck: tiph,
    }
}

fn text(s: &str) -> AttrValue {
    AttrValue::S(s.to_string())
}

fn entry<'a>(item: &'a [(String, AttrValue)], key: &str) -> Option<&'a AttrValue> {
    item.iter().find(|(k, _)| k == key).map(|(_, v)| v)
}

#[test]
fn deck_item_holds_every_attribute() {
    let deck = sample_deck(Some(TiphDeck("abc".to_string(), -3)), Some("desc"), Some("250022"));
    let item = deck_to_item(&deck, "{}");
    assert_eq!(item.len(), 8);
    assert!(matches!(entry(&item, "author"), Some(AttrValue::S(s)) if s == "1234"));
    assert!(matches!(entry(&item, "author_name"), Some(AttrValue::S(s)) if s == "angela"));
    assert!(matches!(entry(&item, "deck_name"), Some(AttrValue::S(s)) if s == "my deck"));
    assert!(matches!(entry(&item, "deck_data"), Some(AttrValue::S(s)) if s == "{}"));
    assert!(matches!(entry(&item, "description"), Some(AttrValue::S(s)) if s == "desc"));
    assert!(matches!(entry(&item, "keypage"), Some(AttrValue::S(s)) if s == "250022"));
    assert!(matches!(entry(&item, "tiph_deck"), Some(AttrValue::S(s)) if s == "abc"));
    assert!(matches!(entry(&item, "tiph_version"), Some(AttrValue::N(s)) if s == "-3"));
}

#[test]
fn deck_item_without_optional_parts_holds_nulls() {
    let deck = sample_deck(None, None, None);
    let item = deck_to_item(&deck, "{}");
    assert_eq!(item.len(), 6);
    assert!(matches!(entry(&item, "description"), Some(AttrValue::Null(true))));
    assert!(matches!(entry(&item, "keypage"), Some(AttrValue::Null(true))));
    assert!(entry(&item, "tiph_deck").is_none());
}

#[test]
fn stored_deck_reads_back() {
    let deck = sample_deck(Some(TiphDeck("xyz".to_string(), 2147483647)), Some("hello"), Some("1"));
    let item = deck_to_item(&deck, "{\"a\":1}");
    let stored = deck_from_item(&item).unwrap();
    assert_eq!(stored.name, "my deck");
    assert_eq!(stored.author_id, "1234");
    assert_eq!(stored.author_name, "angela");
    assert_eq!(stored.description, Some("hello".to_string()));
    assert_eq!(stored.deck_data_json, "{\"a\":1}");
    let tiph = stored.tiph_deck.unwrap();
    assert_eq!(tiph.0, "xyz");
    assert_eq!(tiph.1, 2147483647);
    let meta = metadata_from_item(&item).unwrap();
    assert_eq!((meta.name.as_str(), meta.author_id.as_str(), meta.author_name.as_str()), ("my deck", "1234", "angela"));
}

#[test]
fn stored_deck_without_description_reads_back_as_none() {
    let deck = sample_deck(Some(TiphDeck("t".to_string(), i32::MIN)), None, None);
    let item = deck_to_item(&deck, "{}");
    let stored = deck_from_item(&item).unwrap();
    assert_eq!(stored.description, None);
    assert_eq!(stored.tiph_deck.unwrap().1, i32::MIN);
}

#[test]
fn tiph_version_that_is_not_an_i32_drops_the_code() {
    let item = vec![
        ("deck_name".to_string(), text("n")),
        ("author".to_string(), text("a")),
        ("author_name".to_string(), text("b")),
        ("deck_data".to_string(), text("{}")),
        ("description".to_string(), AttrValue::Other),
        ("tiph_deck".to_string(), text("code")),
        ("tiph_version".to_string(), AttrValue::N("2147483648".to_string())),
    ];
    let stored = deck_from_item(&item).unwrap();
    assert!(stored.tiph_deck.is_none());
    assert_eq!(stored.description, None);
}

#[test]
fn missing_description_is_reported_first() {
    let item = vec![("deck_data".to_string(), AttrValue::Other)];
    assert_eq!(deck_from_item(&item).unwrap_err(), DeckItemError::Missing(ItemAttribute::Description));
}

#[test]
fn item_errors_name_the_attribute() {
    let mut item = vec![("description".to_string(), text("d"))];
    assert_eq!(deck_from_item(&item).unwrap_err(), DeckItemError::Missing(ItemAttribute::DeckName));
    item.push(("deck_name".to_string(), AttrValue::N("1".to_string())));
    assert_eq!(deck_from_item(&item).unwrap_err(), DeckItemError::NotText(ItemAttribute::DeckName));
    item[1].1 = text("n");
    assert_eq!(deck_from_item(&item).unwrap_err(), DeckItemError::Missing(ItemAttribute::Author));
    item.push(("author".to_string(), text("a")));
    assert_eq!(deck_from_item(&item).unwrap_err(), DeckItemError::Missing(ItemAttribute::AuthorName));
    item.push(("author_name".to_string(), text("b")));
    assert_eq!(deck_from_item(&item).unwrap_err(), DeckItemError::Missing(ItemAttribute::DeckData));
    item.push(("deck_data".to_string(), AttrValue::Null(true)));
    assert_eq!(deck_from_item(&item).unwrap_err(), DeckItemError::NotText(ItemAttribute::DeckData));
}

#[test]
fn listing_errors_stop_at_the_first_bad_item() {
    let good = || {
        vec![
            ("deck_name".to_string(), text("n")),
            ("author".to_string(), text("a")),
            ("author_name".to_string(), text("b")),
        ]
    };
    let bad = vec![("deck_name".to_string(), text("n"))];
    let listed = metadata_from_items(&[good(), good()]).unwrap();
    assert_eq!(listed.len(), 2);
    assert_eq!(
        metadata_from_items(&[good(), bad]).unwrap_err(),
        DeckItemError::Missing(ItemAttribute::Author)
    );
}

#[test]
fn listing_plans() {
    assert!(matches!(list_decks_plan(None, None), DeckListing::Scan));
    match list_decks_plan(Some("42"), None) {
        DeckListing::Query { index_name, values, key_condition } => {
            assert_eq!(index_name, None);
            assert_eq!(key_condition, "author = :author");
            assert!(matches!(&values[..], [(k, AttrValue::S(v))] if k == ":author" && v == "42"));
        }
        DeckListing::Scan => panic!("expected a query"),
    }
    match list_decks_plan(None, Some("9")) {
        DeckListing::Query { index_name, key_condition, .. } => {
            assert_eq!(index_name.as_deref(), Some("gsi1"));
            assert_eq!(key_condition, "keypage = :keypage");
        }
        DeckListing::Scan => panic!("expected a query"),
    }
    match list_decks_plan(Some("42"), Some("9")) {
        DeckListing::Query { index_name, values, key_condition } => {
            assert_eq!(index_name.as_deref(), Some("gsi1"));
            assert_eq!(key_condition, "keypage = :keypage and author = :author");
            assert_eq!(values.len(), 2);
        }
        DeckListing::Scan => panic!("expected a query"),
    }
    assert_eq!(listing_projection(), "author, author_name, deck_name");
}

#[test]
fn writes_and_keys() {
    assert_eq!(put_condition(true), None);
    assert_eq!(put_condition(false), Some("attribute_not_exists(author)"));
    let key = deck_key_item("deck", "me");
    assert!(matches!(&key[..], [(a, AttrValue::S(x)), (d, AttrValue::S(y))]
        if a == "author" && x == "me" && d == "deck_name" && y == "deck"));
}
