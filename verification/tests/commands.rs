use binah_bot::analyzer::analyze;
use binah_bot::lor_autocomplete::rank_typed_ids;
use binah_bot::binahbot::BinahBotLocale;
use binah_bot::lobocorp::Locale as GameLocale;
use binah_bot::lc::entry_locale;
use binah_bot::lobocorp_index::{autocomplete_ids, resolve_entry_query};
use binah_bot::deck_commands::{
    create_deck_decoded, quickfill_deck, quickfill_tiph_deck, stored_reply, update_deck_decoded, CreateDeckRequest, DeckStep,
};
use binah_bot::binahbot::{DiscordSecrets, InteractionTtl};
use binah_bot::deck::{Deck, DeckData, DeckValidationError, TiphDeck};
use binah_bot::deck_commands::{
    apply_deck_update, build_error_message_response, create_deck_request, deck_author_display,
    delete_deck_request, interaction_author, list_deck_choices, list_my_decks_offers, new_deck,
    preview_image_url, read_deck_request, tiph_url, update_deck_request, DeckChoices,
};
use binah_bot::discord::{
    DiscordApplicationCommandInteractionData, DiscordGuildMember, DiscordInteraction,
    DiscordInteractionData, DiscordInteractionMetadata, DiscordMessageComponentInteractionData,
    DiscordInteractionOptionValue, DiscordInteractionOptions, DiscordInteractionResponseType,
    DiscordInteractionType, DiscordUser,
};
use binah_bot::game_objects::{RiskLevel, Slot, ToolType};
use binah_bot::lobocorp_index::{assemble_name, query};
use binah_bot::game_objects::EncyclopediaInfoLocalization;
use binah_bot::reparser::{
    finish_encyclopedia_list, format_story_data, get_gift_slot, is_listed, write_tool_info,
    ListEntry, PartialToolInfo,
};
use binah_bot::router::{interaction_ttl, is_lc_button, may_delete, route, Route};
use binah_bot::signature::{validate_headers, HeaderValidationError};
use binah_bot::utils::DELETE_BUTTON_CUSTOM_ID;
use ed25519_dalek::{Signer, SigningKey};

fn user(id: &str) -> DiscordUser {
    DiscordUser { id: id.to_string(), username: format!("name{}", id), avatar: "hash".to_string() }
}

fn text(name: &str, value: &str) -> DiscordInteractionOptions {
    DiscordInteractionOptions {
        name: name.to_string(),
        name_localizations: None,
        value: DiscordInteractionOptionValue::String(value.to_string()),
        focused: None,
    }
}

fn command(kind: DiscordInteractionType, name: &str, options: Vec<DiscordInteractionOptions>, user_: Option<DiscordUser>) -> DiscordInteraction {
    DiscordInteraction {
        id: "interaction".to_string(),
        application_id: "app".to_string(),
        kind,
        data: Some(DiscordInteractionData::ApplicationCommand(DiscordApplicationCommandInteractionData {
            id: "d".to_string(),
            name: name.to_string(),
            options: Some(options),
        })),
        channel_id: None,
        member: Some(DiscordGuildMember { user: Some(user("7")) }),
        user: user_,
        token: "token".to_string(),
        locale: None,
        guild_locale: None,
    }
}

fn full_pages() -> [Option<String>; 9] {
    std::array::from_fn(|i| Some(i.to_string()))
}

#[test]
fn author_is_the_user_else_the_member() {
    let i = command(DiscordInteractionType::ApplicationCommand, "deck", vec![], None);
    assert_eq!("7", interaction_author(&i).id);
    let i = command(DiscordInteractionType::ApplicationCommand, "deck", vec![], Some(user("9")));
    assert_eq!("9", interaction_author(&i).id);
}

#[test]
fn create_deck_reads_its_options() {
    let i = command(
        DiscordInteractionType::ApplicationCommand,
        "createdeck",
        vec![
            text("deck", "https://tiphereth.zasz.su/u/decks/abc/"),
            text("name", "Turbo"),
        ],
        None,
    );
    let r = create_deck_request(&i);
    assert_eq!("abc", r.tiph_deck.0);
    assert_eq!(1, r.tiph_deck.1);
    assert_eq!("Turbo", r.name);
    assert_eq!(None, r.description);
    assert_eq!("7", r.author_id);
    assert_eq!("name7", r.author_name);

    let incomplete = DeckData { keypage_id: None, passive_ids: vec![], combat_page_ids: full_pages() };
    assert_eq!(DeckValidationError::MissingKeypage, new_deck(r, incomplete).unwrap_err());

    let r = create_deck_request(&i);
    let complete = DeckData { keypage_id: Some("k".to_string()), passive_ids: vec![], combat_page_ids: full_pages() };
    let deck = new_deck(r, complete).unwrap();
    assert_eq!("Turbo", deck.name);
    assert_eq!("abc", deck.tiph_deck.unwrap().0);
}

#[test]
fn update_deck_reads_its_options_and_applies_them() {
    let i = command(
        DiscordInteractionType::ApplicationCommand,
        "updatedeck",
        vec![text("name", "7#My#Deck"), text("description", "new")],
        None,
    );
    let r = update_deck_request(&i);
    assert_eq!("My#Deck", r.name);
    assert!(r.tiph_deck.is_none());
    assert_eq!(Some("new".to_string()), r.description);
    let deck = Deck {
        name: "My#Deck".to_string(),
        author_id: "7".to_string(),
        author_name: "n".to_string(),
        description: Some("old".to_string()),
        deck_data: DeckData { keypage_id: None, passive_ids: vec![], combat_page_ids: full_pages() },
        tiph_deck: Some(TiphDeck("code".to_string(), 1)),
    };
    let updated = apply_deck_update(deck, r.description, None);
    assert_eq!(Some("new".to_string()), updated.description);
    assert_eq!("My#Deck", updated.name);
    let kept = apply_deck_update(updated, None, None);
    assert_eq!(Some("new".to_string()), kept.description);
}

#[test]
fn delete_and_read_deck_requests() {
    let i = command(DiscordInteractionType::ApplicationCommand, "deletedeck", vec![text("name", "7#Deck")], None);
    let r = delete_deck_request(&i);
    assert_eq!("Deck", r.name);
    assert_eq!("7", r.author_id);
    let mut options = vec![text("name", "42#Deck#2")];
    options.push(DiscordInteractionOptions {
        name: "private".to_string(),
        name_localizations: None,
        value: DiscordInteractionOptionValue::Bool(true),
        focused: None,
    });
    let i = command(DiscordInteractionType::ApplicationCommand, "deck", options, None);
    let r = read_deck_request(&i);
    assert_eq!("42", r.author_id);
    assert_eq!("Deck#2", r.name);
    assert!(r.is_private);
}

#[test]
fn error_messages_are_private_notices() {
    let r = build_error_message_response("went wrong".to_string());
    assert_eq!(DiscordInteractionResponseType::ChannelMessageWithSource, r.kind);
    let data = r.data.unwrap();
    assert_eq!(Some(64), data.flags);
    let embeds = data.embeds.unwrap();
    assert_eq!(1, embeds.len());
    assert_eq!(Some("went wrong".to_string()), embeds[0].description);
    assert_eq!(Some(0x0d0011), embeds[0].color);
}

#[test]
fn deck_links() {
    let deck = Deck {
        name: "n".to_string(),
        author_id: "7".to_string(),
        author_name: "a".to_string(),
        description: None,
        deck_data: DeckData { keypage_id: None, passive_ids: vec![], combat_page_ids: full_pages() },
        tiph_deck: Some(TiphDeck("CS-x".to_string(), 1)),
    };
    assert_eq!(Some("https://tiphereth.zasz.su/u/decks/CS-x/".to_string()), tiph_url(&deck));
    assert_eq!("https://b.s3.amazonaws.com/deck_thumbnails/ABC.png", preview_image_url("b", "ABC"));
    let u = user("7");
    assert_eq!(
        ("@name7".to_string(), Some("https://cdn.discordapp.com/avatars/7/hash.png".to_string())),
        deck_author_display("7", Some(&u))
    );
    assert_eq!(("7".to_string(), None), deck_author_display("7", None));
    assert_eq!(DeckChoices::Keypages, list_deck_choices("keypage"));
    assert_eq!(DeckChoices::DecksByName, list_deck_choices("author"));
    assert!(list_my_decks_offers("name"));
    assert!(!list_my_decks_offers("keypage"));
}

#[test]
fn interactions_are_routed_by_kind_and_name() {
    let ping = command(DiscordInteractionType::Ping, "", vec![], None);
    assert_eq!(Some(Route::Pong), route(&ping));
    assert_eq!(Some(Route::Rollcalc), route(&command(DiscordInteractionType::ApplicationCommand, "rollcalc", vec![], None)));
    assert_eq!(Some(Route::ReadDeck), route(&command(DiscordInteractionType::ApplicationCommand, "deck", vec![], None)));
    assert_eq!(Some(Route::ListDeck), route(&command(DiscordInteractionType::ApplicationCommandAutocomplete, "deck", vec![], None)));
    assert_eq!(Some(Route::ListMyDecks), route(&command(DiscordInteractionType::ApplicationCommandAutocomplete, "deletedeck", vec![], None)));
    assert_eq!(None, route(&command(DiscordInteractionType::ApplicationCommand, "unknown", vec![], None)));
    assert_eq!(None, route(&command(DiscordInteractionType::ModalSubmit, "deck", vec![], None)));
    assert!(is_lc_button("lc#e#1#en#0"));
    assert!(!is_lc_button("delete"));
}

fn press(custom_id: &str) -> DiscordInteraction {
    let mut i = command(DiscordInteractionType::MessageComponent, "", vec![], None);
    i.data = Some(DiscordInteractionData::MessageComponent(DiscordMessageComponentInteractionData {
        custom_id: custom_id.to_string(),
    }));
    i
}

#[test]
fn button_presses_are_routed_by_the_button_id() {
    assert_eq!(Some(Route::DeleteButton), route(&press(DELETE_BUTTON_CUSTOM_ID)));
    assert_eq!(Some(Route::DeleteButton), route(&press("delete")));
    assert_eq!(Some(Route::LcButton), route(&press("lc#e#100038#en#0")));
    assert_eq!(Some(Route::LcButton), route(&press("lc#")));
    assert_eq!(None, route(&press("lc")));
    assert_eq!(None, route(&press("deletex")));
    assert_eq!(None, route(&press("")));
    // a press carrying a command's data, or a command carrying a press's, has no answer
    assert_eq!(None, route(&command(DiscordInteractionType::MessageComponent, "delete", vec![], None)));
    let mut wrong = press("delete");
    wrong.kind = DiscordInteractionType::ApplicationCommand;
    assert_eq!(None, route(&wrong));
}

#[test]
fn only_the_author_may_delete_an_answer() {
    let i = command(DiscordInteractionType::ApplicationCommand, "lor", vec![], None);
    let record = interaction_ttl(&i, 1000);
    let r = record.as_ref().unwrap();
    assert_eq!("interaction", r.interaction_id);
    assert_eq!(1000, r.ttl);
    assert_eq!("7", r.original_user_id);
    assert!(may_delete("7", &record));
    assert!(!may_delete("8", &record));
    assert!(!may_delete("7", &None::<InteractionTtl>));
    let auto = command(DiscordInteractionType::ApplicationCommandAutocomplete, "lor", vec![], None);
    assert!(interaction_ttl(&auto, 1000).is_none());
}

fn hex(bytes: &[u8]) -> String {
    bytes.iter().map(|b| format!("{:02x}", b)).collect()
}

#[test]
fn signed_requests_are_accepted_and_others_refused() {
    let key = SigningKey::from_bytes(&[7u8; 32]);
    let secrets = DiscordSecrets {
        application_id: "a".to_string(),
        auth_token: "t".to_string(),
        public_key: hex(key.verifying_key().as_bytes()),
        bot_token: "b".to_string(),
    };
    let sig = key.sign(b"123{\"type\":1}");
    let good = DiscordInteractionMetadata {
        timestamp: "123".to_string(),
        signature: hex(&sig.to_bytes()),
        json_body: "{\"type\":1}".to_string(),
    };
    assert_eq!(Ok(()), validate_headers(&secrets, &good));
    let tampered = DiscordInteractionMetadata { json_body: "{\"type\":2}".to_string(), ..good };
    assert_eq!(Err(HeaderValidationError::BadSignature), validate_headers(&secrets, &tampered));
    let not_hex = DiscordInteractionMetadata {
        timestamp: "123".to_string(),
        signature: "zz".to_string(),
        json_body: "{}".to_string(),
    };
    assert_eq!(Err(HeaderValidationError::SignatureNotHex), validate_headers(&secrets, &not_hex));
    let bad_key = DiscordSecrets { public_key: "pub_key".to_string(), ..secrets };
    assert_eq!(Err(HeaderValidationError::PublicKeyNotHex), validate_headers(&bad_key, &not_hex));
    // a key that is hex but no curve point is reported before a signature that is not hex
    let off_curve = DiscordSecrets {
        public_key: "0200000000000000000000000000000000000000000000000000000000000000".to_string(),
        ..bad_key
    };
    assert_eq!(Err(HeaderValidationError::InvalidPublicKey), validate_headers(&off_curve, &not_hex));
}

#[test]
fn encyclopedia_list_keeps_abnormalities_and_adds_apocalypse_bird() {
    let entries = vec![
        ListEntry { src: "Bird".to_string(), id: 100020, stat: "Bird_stat".to_string() },
        ListEntry { src: "Ordeal".to_string(), id: 200001, stat: "o".to_string() },
        ListEntry { src: "Core".to_string(), id: 400002, stat: "c".to_string() },
        ListEntry { src: "Egg".to_string(), id: 1000351, stat: "e".to_string() },
        ListEntry { src: "Tool".to_string(), id: 300001, stat: "t".to_string() },
    ];
    let kept = finish_encyclopedia_list(entries);
    let ids: Vec<u32> = kept.iter().map(|e| e.id).collect();
    assert_eq!(vec![100020, 300001, 100038], ids);
    assert_eq!("BossBird", kept[2].src);
    assert!(is_listed(400001));
    assert!(!is_listed(1000350));
}

#[test]
fn gift_slots_read_from_attachments() {
    assert_eq!(Ok(Slot::Hand1), get_gift_slot("Right_Hand", "ADD"));
    assert_eq!(Ok(Slot::Hand2), get_gift_slot("right_hand", "special"));
    assert_eq!(Ok(Slot::Neckwear), get_gift_slot("ribborn", ""));
    assert_eq!(Err("invalid slot type".to_string()), get_gift_slot("tail", "add"));
}

#[test]
fn story_lines_become_raw_literals() {
    assert_eq!("r\"Company P \"", format_story_data("[ {Company P } ]"));
    assert_eq!("r#\"say \"hi\"\"#", format_story_data("say \"hi\""));
    assert_eq!("r##\"a \"#1\"\"##", format_story_data("{a \"#1\"}"));
    assert_eq!("r###\"\"##\"###", format_story_data("\"##"));
}

#[test]
fn tool_entries_are_written_as_source() {
    let entry = ListEntry { src: "Shelter".to_string(), id: 300006, stat: "s".to_string() };
    let info = PartialToolInfo { risk: RiskLevel::Teth, tool_type: ToolType::SustainedUse, image: None };
    assert_eq!(
        "EncyclopediaInfo::Tool(ToolInfo {\n        id: 300006,\n        risk: RiskLevel::Teth,\n        tool_type: ToolType::SustainedUse,\n        image: \"\"\n    })",
        write_tool_info(&entry, &info)
    );
}

#[test]
fn lobocorp_sanity_query() {
    let bird_en = EncyclopediaInfoLocalization {
        id: "100020",
        name: "Punishing Bird",
        other_names: &["Little Bird"],
        code: "O-02-56",
        selection_text: None,
        managerial_guidances: &[],
        story: &[],
        breaching_entity_localizations: &[],
        narration_map: &[],
    };
    let lamp_en = EncyclopediaInfoLocalization {
        id: "100040",
        name: "Eternally Lit Lamp",
        other_names: &[],
        code: "O-04-63",
        selection_text: None,
        managerial_guidances: &[],
        story: &[],
        breaching_entity_localizations: &[],
        narration_map: &[],
    };
    let bird = assemble_name(&[bird_en]);
    assert_eq!("Punishing Bird Little Bird O-02-56", bird);
    let lamp = assemble_name(&[lamp_en]);
    let names = vec![lamp, bird];
    let ids = vec![100040, 100020];
    let result = query("punishing bird", &names, &ids);
    let position = result.iter().position(|x| *x == 100020).expect("couldn't find punishing bird");
    assert!(position <= 2);
    assert_eq!(100020, result[0]);
}

#[test]
fn deck_sheet_rows_become_decks() {
    let tiph = quickfill_tiph_deck("CS-iRmsieV9ddwW4-BA1C~n");
    assert_eq!(tiph.0, "CS-iRmsieV9ddwW4-BA1C~n");
    assert_eq!(tiph.1, 1);
    let data = DeckData { keypage_id: Some("250023".to_string()), passive_ids: vec![], combat_page_ids: Default::default() };
    let deck = quickfill_deck("Turbo Nikolai", Some("fast"), "42", "angela", data, tiph);
    assert_eq!(deck.name, "Turbo Nikolai");
    assert_eq!(deck.author_id, "42");
    assert_eq!(deck.author_name, "angela");
    assert_eq!(deck.description.as_deref(), Some("fast"));
    assert_eq!(deck.deck_data.keypage_id.as_deref(), Some("250023"));
    assert_eq!(deck.tiph_deck.unwrap().0, "CS-iRmsieV9ddwW4-BA1C~n");
    let plain = quickfill_deck("x", None, "1", "u", DeckData { keypage_id: None, passive_ids: vec![], combat_page_ids: Default::default() }, quickfill_tiph_deck("c"));
    assert!(plain.description.is_none());
}

#[test]
fn encyclopedia_queries_name_an_entry() {
    let names = vec!["Eternally Lit Lamp O-04-63".to_string(), "Punishing Bird Little Bird O-02-56".to_string()];
    let ids = vec![100040, 100020];
    assert_eq!(Some(100038), resolve_entry_query("100038", &names, &ids));
    assert_eq!(Some(100020), resolve_entry_query("punishing bird", &names, &ids));
    assert_eq!(Some(100040), resolve_entry_query("lamp", &names, &ids));
    assert_eq!(None, resolve_entry_query("", &names, &ids));
}

#[test]
fn encyclopedia_language_comes_from_the_option_else_the_request() {
    assert_eq!(GameLocale::Japanese, entry_locale(&[text("locale", "jp")], &BinahBotLocale::Korean));
    assert_eq!(GameLocale::Korean, entry_locale(&[text("locale", "xx")], &BinahBotLocale::Korean));
    assert_eq!(GameLocale::English, entry_locale(&[], &BinahBotLocale::Other));
}

#[test]
fn encyclopedia_search_offers_at_most_ten_choices() {
    let names: Vec<String> = (0..15).map(|i| format!("bird number {}", i)).collect();
    let ids: Vec<u32> = (0..15).collect();
    assert_eq!(10, autocomplete_ids("bird", &names, &ids).len());
    let few = autocomplete_ids("number 3", &names[..4].to_vec(), &ids[..4].to_vec());
    assert_eq!(4, few.len());
    assert_eq!(3, few[0]);
}

#[test]
fn search_hits_rank_ids_by_how_many_tokens_find_them() {
    let sets = |v: Vec<Vec<&str>>| -> Vec<Vec<String>> {
        v.into_iter().map(|s| s.into_iter().map(|x| x.to_string()).collect()).collect()
    };
    let ranked = rank_typed_ids(&sets(vec![vec!["a", "b"], vec!["b", "c"], vec!["b", "c"], vec!["d"]]));
    assert_eq!(4, ranked.len());
    assert_eq!("b", ranked[0]);
    assert_eq!("c", ranked[1]);
    let mut rest = vec![ranked[2].clone(), ranked[3].clone()];
    rest.sort();
    assert_eq!(vec!["a".to_string(), "d".to_string()], rest);
    assert!(rank_typed_ids(&sets(vec![])).is_empty());
    assert_eq!(vec!["x".to_string()], rank_typed_ids(&sets(vec![vec!["x", "x"]])));
}

fn request() -> CreateDeckRequest {
    CreateDeckRequest {
        tiph_deck: TiphDeck("code".to_string(), 1),
        name: "Deck".to_string(),
        description: None,
        author_id: "7".to_string(),
        author_name: "angela".to_string(),
    }
}

#[test]
fn deck_saving_steps() {
    assert!(matches!(create_deck_decoded(request(), None), DeckStep::Reply("cant_parse_deck_error_message")));
    let incomplete = DeckData { keypage_id: None, passive_ids: vec![], combat_page_ids: full_pages() };
    assert!(matches!(create_deck_decoded(request(), Some(incomplete)), DeckStep::Reply("missing_keypage_error_message")));
    let complete = DeckData { keypage_id: Some("1".to_string()), passive_ids: vec![], combat_page_ids: full_pages() };
    match create_deck_decoded(request(), Some(complete)) {
        DeckStep::Store { deck, overwrite } => {
            assert!(!overwrite);
            assert_eq!(deck.name, "Deck");
            assert_eq!(deck.tiph_deck.unwrap().0, "code");
        }
        DeckStep::Reply(k) => panic!("unexpected reply {k}"),
    }
    let saved = Deck {
        name: "Deck".to_string(),
        author_id: "7".to_string(),
        author_name: "angela".to_string(),
        description: Some("old".to_string()),
        deck_data: DeckData { keypage_id: Some("1".to_string()), passive_ids: vec![], combat_page_ids: full_pages() },
        tiph_deck: None,
    };
    match update_deck_decoded(saved, Some("new".to_string()), None) {
        DeckStep::Store { deck, overwrite } => {
            assert!(overwrite);
            assert_eq!(deck.description.as_deref(), Some("new"));
            assert_eq!(deck.deck_data.keypage_id.as_deref(), Some("1"));
        }
        DeckStep::Reply(k) => panic!("unexpected reply {k}"),
    }
    assert_eq!("create_deck_success", stored_reply(true, "create_deck_success"));
    assert_eq!("generic_error_message", stored_reply(false, "create_deck_success"));
}

#[test]
fn analysis_of_two_words_adds_their_ngrams() {
    let both = analyze("turbo nikolai");
    let mut summed: std::collections::HashMap<String, usize> = std::collections::HashMap::new();
    for (g, f) in analyze("turbo").into_iter().chain(analyze("nikolai")) {
        *summed.entry(g.0).or_insert(0) += f;
    }
    let both: std::collections::HashMap<String, usize> = both.into_iter().map(|(g, f)| (g.0, f)).collect();
    assert_eq!(summed, both);
    let swapped: std::collections::HashMap<String, usize> = analyze("nikolai turbo").into_iter().map(|(g, f)| (g.0, f)).collect();
    assert_eq!(swapped, both);
}

fn id_set(ids: &[&str]) -> Vec<String> {
    ids.iter().map(|x| x.to_string()).collect()
}

#[test]
fn sanity_set_to_hashmap_count() {
    // the ids one token finds are each counted once
    let weight_set = id_set(&["CombatPageId:607204", "KeyPageId:250022"]);
    let weight_ranked = rank_typed_ids(&vec![weight_set.clone()]);
    assert_eq!(weight_ranked.len(), weight_set.len());
    weight_ranked.iter().for_each(|x| {
        assert!(weight_set.contains(x));
    });
}

#[test]
fn sanity_combine_hashmap_count() {
    // two tokens that find the same two ids give each id a count of two
    let weight_set = id_set(&["CombatPageId:607204", "KeyPageId:250022"]);
    let sin_set = id_set(&["KeyPageId:250022", "CombatPageId:607204"]);
    let combined = rank_typed_ids(&vec![weight_set.clone(), sin_set]);
    assert_eq!(combined.len(), 2);
    combined.iter().for_each(|x| {
        assert!(weight_set.contains(x));
    });
    // an id found by both tokens comes before one found by only one of them
    let more = rank_typed_ids(&vec![id_set(&["a", "b"]), id_set(&["b"])]);
    assert_eq!(vec!["b".to_string(), "a".to_string()], more);
}
