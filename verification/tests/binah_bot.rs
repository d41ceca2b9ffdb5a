use binah_bot::binahbot::{BinahBotLocale, DiscordEmbedColors};
use binah_bot::deck::{
    deck_data_from_tiph, generate_thumb_name, get_discord_option_value, get_top_matches,
    parse_deck_name_option, resolve_optional, tiph_encode_params, validate_deck, DeckData,
    DeckMetadata, DeckValidationError,
};
use binah_bot::dice::{calculate, calculate_accepted, DiceDistribution};
use binah_bot::discord::{
    DiscordApplicationCommandInteractionData, DiscordInteraction, DiscordInteractionData,
    DiscordInteractionOptionValue,
    DiscordInteractionOptions, DiscordInteractionType, DiscordUser,
};
use binah_bot::lists::{aggregate_count, dedup_preserve_order, format_to_indented_list, format_to_list};
use binah_bot::lor_command::{get_locale_option, get_private_option, get_query_option};
use binah_bot::rollcalc::{rollcalc, rollcalc_answerable, RollcalcOutcome};
use binah_bot::utils::{get_binahbot_locale, get_focused_option, get_option_value, parse_tiph_deck_id};

fn full_combat_pages() -> [Option<String>; 9] {
    std::array::from_fn(|i| Some(i.to_string()))
}

fn option(name: &str, value: DiscordInteractionOptionValue, focused: Option<bool>) -> DiscordInteractionOptions {
    DiscordInteractionOptions {
        name: name.to_string(),
        name_localizations: None,
        value,
        focused,
    }
}

fn interaction(options: Vec<DiscordInteractionOptions>, locale: Option<&str>, guild_locale: Option<&str>) -> DiscordInteraction {
    DiscordInteraction {
        id: "id".to_string(),
        application_id: "app_id".to_string(),
        kind: DiscordInteractionType::ApplicationCommand,
        data: Some(DiscordInteractionData::ApplicationCommand(DiscordApplicationCommandInteractionData {
            id: "id".to_string(),
            name: "rollcalc".to_string(),
            options: Some(options),
        })),
        channel_id: None,
        member: None,
        user: Some(DiscordUser {
            id: "snowflake".to_string(),
            username: "username".to_string(),
            avatar: "hash".to_string(),
        }),
        token: "token".to_string(),
        locale: locale.map(|x| x.to_string()),
        guild_locale: guild_locale.map(|x| x.to_string()),
    }
}

#[test]
fn should_pass_on_valid_deck() {
    let deck_data = DeckData {
        keypage_id: Some("12".to_string()),
        passive_ids: vec![],
        combat_page_ids: full_combat_pages(),
    };
    assert!(validate_deck(&deck_data).is_ok());
}

#[test]
fn should_err_on_missing_combat_pages() {
    let deck_data = DeckData {
        keypage_id: Some("12".to_string()),
        passive_ids: vec![],
        combat_page_ids: [None, None, None, None, None, None, None, None, None],
    };
    let err = validate_deck(&deck_data).unwrap_err();
    assert_eq!(err.as_error_key(), "missing_combat_pages_error_message");
}

#[test]
fn should_err_on_partially_filled_combat_pages() {
    let mut pages = full_combat_pages();
    pages[4] = None;
    let deck_data = DeckData {
        keypage_id: Some("12".to_string()),
        passive_ids: vec![],
        combat_page_ids: pages,
    };
    let err = validate_deck(&deck_data).unwrap_err();
    assert_eq!(err.as_error_key(), "missing_combat_pages_error_message");
}

#[test]
fn should_err_on_missing_keypage() {
    let deck_data = DeckData {
        keypage_id: None,
        passive_ids: vec![],
        combat_page_ids: full_combat_pages(),
    };
    let err = validate_deck(&deck_data).unwrap_err();
    assert_eq!(err.as_error_key(), "missing_keypage_error_message");
}

#[test]
fn should_err_on_missing_combat_pages_when_both_missing() {
    let deck_data = DeckData {
        keypage_id: None,
        passive_ids: vec![],
        combat_page_ids: [None, None, None, None, None, None, None, None, None],
    };
    let err = validate_deck(&deck_data).unwrap_err();
    assert_eq!(err.as_error_key(), "missing_combat_pages_error_message");
    assert_eq!(err, DeckValidationError::MissingCombatPages);
}

#[test]
fn sanity_get_top_matches() {
    let decks = vec![
        DeckMetadata { name: "Turbo Nikolai".to_string(), author_id: "1".to_string(), author_name: "gh".to_string() },
        DeckMetadata { name: "Bore Kali to death with this one neat trick!".to_string(), author_id: "2".to_string(), author_name: "al".to_string() },
        DeckMetadata { name: "Op".to_string(), author_id: "3".to_string(), author_name: "ai".to_string() },
        DeckMetadata { name: "Crimson Claws".to_string(), author_id: "4".to_string(), author_name: "eb".to_string() },
        DeckMetadata { name: "TurboNikolai".to_string(), author_id: "1".to_string(), author_name: "gh".to_string() },
    ];
    let top = get_top_matches("turbo nikolai", &decks, 2).iter().map(|x| x.name.as_str()).collect::<Vec<_>>();
    assert_eq!(2, top.len());
    assert_eq!(Some(&"Turbo Nikolai"), top.get(0));
    assert_eq!(Some(&"TurboNikolai"), top.get(1));

    let top = get_top_matches("one neat trick", &decks, 1).iter().map(|x| x.name.as_str()).collect::<Vec<_>>();
    assert_eq!(1, top.len());
    assert_eq!(Some(&"Bore Kali to death with this one neat trick!"), top.get(0));

    let top = get_top_matches("CCCCCCCC", &decks, 10).iter().map(|x| x.name.as_str()).collect::<Vec<_>>();
    assert_eq!(1, top.len());
    assert_eq!(Some(&"Crimson Claws"), top.get(0));
}

#[test]
fn top_matches_of_no_decks_is_empty() {
    let decks: Vec<DeckMetadata> = Vec::new();
    assert!(get_top_matches("anything", &decks, 10).is_empty());
}

#[test]
fn sanity_parse_deck_name_option() {
    let input = "269925702571130880#Turbo#Nikolai";
    let deck = parse_deck_name_option(input).unwrap();
    assert_eq!("269925702571130880", deck.0);
    assert_eq!("Turbo#Nikolai", deck.1);
}

#[test]
fn deck_name_option_without_separator_is_refused() {
    assert!(parse_deck_name_option("no separator").is_err());
    let deck = parse_deck_name_option("#").unwrap();
    assert_eq!("", deck.0);
    assert_eq!("", deck.1);
}

#[test]
fn discord_option_value_reads_back_as_deck_key() {
    let deck = DeckMetadata { name: "Turbo#Nikolai".to_string(), author_id: "42".to_string(), author_name: "gh".to_string() };
    let value = get_discord_option_value(&deck);
    assert_eq!("42#Turbo#Nikolai", value);
    let key = parse_deck_name_option(&value).unwrap();
    assert_eq!("42", key.0);
    assert_eq!("Turbo#Nikolai", key.1);
}

#[test]
fn sanity_dedup_preserve_order() {
    let mut vec = vec!["a", "b", "d", "a", "c", "b", "c"];
    dedup_preserve_order(&mut vec);
    assert_eq!(4, vec.len());
    assert_eq!(vec!["a", "b", "d", "c"], vec);
}

#[test]
fn aggregate_count_counts_in_order_of_first_occurrence() {
    let v = vec!["a", "b", "a", "c", "a"];
    assert_eq!(vec![("a", 3), ("b", 1), ("c", 1)], aggregate_count(&v));
    let empty: Vec<&str> = Vec::new();
    assert!(aggregate_count(&empty).is_empty());
}

#[test]
fn sanity_format_to_indented_list() {
    let input = vec!["item 1".to_string(), "item 2".to_string()];
    let expected_output = "- item 1\n- item 2";
    assert_eq!(expected_output, format_to_indented_list(&input));
}

#[test]
fn format_to_list_of_nothing_is_empty() {
    let input: Vec<String> = Vec::new();
    assert_eq!("", format_to_list(&input));
    assert_eq!("- one", format_to_list(&["one".to_string()]));
}

#[test]
fn sanity_calculate() {
    let result = calculate(7, 10, 2, 6);
    assert_eq!(DiceDistribution(20, 20, 0, 0), result);

    let result = calculate(5, 10, 5, 10);
    assert_eq!(DiceDistribution(36, 15, 15, 6), result);

    let result = calculate(5, 7, 5, 10);
    assert_eq!(DiceDistribution(18, 3, 12, 3), result);

    let result = calculate(2, 2, 2, 2);
    assert_eq!(DiceDistribution(1, 0, 0, 1), result);
}

#[test]
fn calculate_counts_pairs_of_dice_with_a_gap() {
    assert_eq!(DiceDistribution(1, 1, 0, 0), calculate(10, 10, 1, 1));
    assert_eq!(DiceDistribution(9, 9, 0, 0), calculate(10, 12, 1, 3));
    assert_eq!(DiceDistribution(9, 0, 9, 0), calculate(1, 3, 10, 12));
    assert_eq!(DiceDistribution(12, 11, 0, 1), calculate(4, 6, 1, 4));
}

#[test]
fn performance_calculate() {
    let result = calculate(1, 65536, 1, 65536);
    assert_eq!(DiceDistribution(4294967296, 2147450880, 2147450880, 65536), result);
}

#[test]
fn calculate_swapping_dice_swaps_wins() {
    let a = calculate(3, 9, 5, 6);
    let b = calculate(5, 6, 3, 9);
    assert_eq!(a.0, b.0);
    assert_eq!(a.1, b.2);
    assert_eq!(a.2, b.1);
    assert_eq!(a.3, b.3);
    assert_eq!(a.0, a.1 + a.2 + a.3);
}

#[test]
fn sanity_does_not_crash() {
    let i = interaction(
        vec![
            option("min1", DiscordInteractionOptionValue::Integer(3), None),
            option("min2", DiscordInteractionOptionValue::Integer(6), None),
            option("max1", DiscordInteractionOptionValue::Integer(7), None),
            option("max2", DiscordInteractionOptionValue::Integer(19), None),
        ],
        None,
        None,
    );
    let plan = rollcalc(&i);
    assert_eq!(BinahBotLocale::EnglishUS, plan.locale);
    assert!(!plan.is_private);
    assert_eq!(None, plan.flags);
    match plan.outcome {
        RollcalcOutcome::Distribution(d) => assert_eq!(calculate(3, 7, 6, 19), d),
        RollcalcOutcome::RangeError => panic!("ranges are not empty"),
    }
    assert_eq!(Some("delete"), plan.delete_button);
    assert_eq!("title_format", plan.embed.title_key);
    assert_eq!(None, plan.embed.description_key);
    let fields = plan.embed.fields.unwrap();
    let c = calculate(3, 7, 6, 19);
    assert_eq!(3, fields.len());
    assert_eq!(("dice_1_win_header", c.1, c.0), (fields[0].header_key, fields[0].numerator, fields[0].denominator));
    assert_eq!(("dice_2_win_header", c.2, c.0), (fields[1].header_key, fields[1].numerator, fields[1].denominator));
    assert_eq!(("draw_header", c.3, c.0), (fields[2].header_key, fields[2].numerator, fields[2].denominator));
    assert_eq!("win_format", plan.embed.value_key);
}

#[test]
fn rollcalc_reports_an_empty_range_privately() {
    let i = interaction(
        vec![
            option("min1", DiscordInteractionOptionValue::Integer(8), None),
            option("min2", DiscordInteractionOptionValue::Integer(1), None),
            option("max1", DiscordInteractionOptionValue::Integer(7), None),
            option("max2", DiscordInteractionOptionValue::Integer(4), None),
            option("private", DiscordInteractionOptionValue::Bool(true), None),
        ],
        Some("ko"),
        None,
    );
    let plan = rollcalc(&i);
    assert_eq!(BinahBotLocale::Korean, plan.locale);
    assert!(plan.is_private);
    assert_eq!(Some(64), plan.flags);
    assert!(matches!(plan.outcome, RollcalcOutcome::RangeError));
    assert_eq!(None, plan.delete_button);
    assert_eq!(Some("dice_range_message"), plan.embed.description_key);
    assert!(plan.embed.fields.is_none());
}

#[test]
fn rollcalc_answers_commands_with_four_bounds() {
    let bounds = |a: i32, b: i32, c: i32, d: i32| {
        interaction(
            vec![
                option("min1", DiscordInteractionOptionValue::Integer(a), None),
                option("max1", DiscordInteractionOptionValue::Integer(b), None),
                option("min2", DiscordInteractionOptionValue::Integer(c), None),
                option("max2", DiscordInteractionOptionValue::Integer(d), None),
            ],
            None,
            None,
        )
    };
    assert!(rollcalc_answerable(&bounds(1, 4, 2, 6)));
    assert!(rollcalc_answerable(&bounds(5, 4, 2, 6)));
    assert!(!rollcalc_answerable(&bounds(i32::MIN, i32::MAX, 0, 1)));
    let missing = interaction(vec![option("min1", DiscordInteractionOptionValue::Integer(1), None)], None, None);
    assert!(!rollcalc_answerable(&missing));
    assert!(calculate_accepted(1, 6, 1, 6));
    assert!(!calculate_accepted(6, 1, 1, 6));
}

#[test]
fn sanity_get_option_value() {
    let options = vec![
        option("query", DiscordInteractionOptionValue::String("query_str".to_string()), None),
        option("private", DiscordInteractionOptionValue::Bool(true), None),
    ];
    assert_eq!(
        &DiscordInteractionOptionValue::String("query_str".to_string()),
        get_option_value("query", &options).unwrap()
    );
    assert_eq!(&DiscordInteractionOptionValue::Bool(true), get_option_value("private", &options).unwrap());
    assert!(get_option_value("missing", &options).is_none());
}

#[test]
fn sanity_get_focused_option() {
    let options = vec![
        option("query", DiscordInteractionOptionValue::String("query_str".to_string()), None),
        option("private", DiscordInteractionOptionValue::Bool(true), Some(true)),
    ];
    assert_eq!(options[1].name, get_focused_option(&options).unwrap().name);
    let unfocused = vec![option("query", DiscordInteractionOptionValue::String("q".to_string()), Some(false))];
    assert!(get_focused_option(&unfocused).is_none());
}

#[test]
fn sanity_parse_tiph_deck_id() {
    let inputs = vec![
        "CS-iRmsieV9ddwW4-BA1C~n",
        "https://tiphereth.zasz.su/u/decks/CS-iRmsieV9ddwW4-BA1C~n/",
        "https://tiphereth.zasz.su/u/decks/CS-iRmsieV9ddwW4-BA1C~n",
        "/CS-iRmsieV9ddwW4-BA1C~n/",
        "CS-iRmsieV9ddwW4-BA1C~n/",
        "/CS-iRmsieV9ddwW4-BA1C~n",
    ];
    let expected_output = "CS-iRmsieV9ddwW4-BA1C~n";
    for str in inputs {
        assert_eq!(expected_output, parse_tiph_deck_id(str));
    }
    assert_eq!("", parse_tiph_deck_id("/"));
}

#[test]
fn binahbot_locale_falls_back_as_documented() {
    assert_eq!(BinahBotLocale::Japanese, get_binahbot_locale(&interaction(vec![], None, Some("ja"))));
    assert_eq!(BinahBotLocale::EnglishUS, get_binahbot_locale(&interaction(vec![], Some("de"), Some("ja"))));
    assert_eq!(BinahBotLocale::EnglishUS, get_binahbot_locale(&interaction(vec![], None, None)));
    assert_eq!(BinahBotLocale::ChineseTaiwan, get_binahbot_locale(&interaction(vec![], Some("zh-TW"), None)));
}

#[test]
fn binahbot_locale_tags_round_trip() {
    for l in [
        BinahBotLocale::EnglishUS,
        BinahBotLocale::Korean,
        BinahBotLocale::Japanese,
        BinahBotLocale::ChineseChina,
        BinahBotLocale::ChineseTaiwan,
        BinahBotLocale::Other,
    ] {
        assert_eq!(Some(l), BinahBotLocale::from_str(&l.to_string()));
    }
    assert_eq!("zh-CN", BinahBotLocale::ChineseChina.to_string());
    assert_eq!(None, BinahBotLocale::from_str("en"));
}

#[test]
fn embed_colors_have_their_values() {
    assert_eq!(0x0d0011, DiscordEmbedColors::Default.value());
    assert_eq!(0xfe0000, DiscordEmbedColors::Aleph.value());
}

#[test]
fn sanity_get_query_option() {
    let options = vec![
        option("query", DiscordInteractionOptionValue::String("value".to_string()), None),
        option("locale", DiscordInteractionOptionValue::String("kr".to_string()), None),
        option("private", DiscordInteractionOptionValue::Bool(false), None),
    ];
    assert_eq!(get_query_option(&options), "value");
    assert_eq!(Some("kr".to_string()), get_locale_option(&options));
    assert_eq!(Some(false), get_private_option(&options));
    assert_eq!(None, get_private_option(&options[..1]));
    assert_eq!(None, get_locale_option(&options[..1]));
}

#[test]
fn autocomplete_query_defaults_to_empty() {
    let options: Vec<DiscordInteractionOptions> = Vec::new();
    assert_eq!("", binah_bot::lor_autocomplete::get_query_option(&options));
}

#[test]
fn sanity_generate_thumb_name() {
    let input: [Option<String>; 9] = ["a", "b", "c", "d", "e", "f", "g", "h", "i"].map(|x| Some(x.to_string()));
    let input2: [Option<String>; 9] = ["a", "b", "c", "d", "e", "f", "g", "h", "j"].map(|x| Some(x.to_string()));
    assert_ne!(generate_thumb_name(&input), generate_thumb_name(&input2));
}

#[test]
fn thumb_name_is_the_upper_hex_hash_of_the_key() {
    let mut pages: [Option<String>; 9] = ["a", "b", "c", "d", "e", "f", "g", "h", "i"].map(|x| Some(x.to_string()));
    pages[8] = None;
    assert_eq!(
        ["a", "b", "c", "d", "e", "f", "g", "h", "0"].map(|x| x.to_string()),
        resolve_optional(&pages)
    );
    let expected = format!("{:X}", xxhash_rust::xxh3::xxh3_64("a#b#c#d#e#f#g#h#0".as_bytes()));
    assert_eq!(expected, generate_thumb_name(&pages));
}

#[test]
fn tiph_cards_fill_the_slots_in_order() {
    let d = deck_data_from_tiph(&vec![608014, -5], Some(250023), &vec![230018, 0]);
    assert_eq!(Some("250023".to_string()), d.keypage_id);
    assert_eq!(vec!["230018".to_string(), "0".to_string()], d.passive_ids);
    assert_eq!(Some("608014".to_string()), d.combat_page_ids[0]);
    assert_eq!(Some("-5".to_string()), d.combat_page_ids[1]);
    assert_eq!(None, d.combat_page_ids[2]);
    let many = deck_data_from_tiph(&(1..=12).collect(), None, &vec![]);
    assert_eq!(Some("9".to_string()), many.combat_page_ids[8]);
    assert_eq!(None, many.keypage_id);
}

#[test]
fn tiph_encode_params_list_keypage_passives_and_slots() {
    let mut pages = full_combat_pages();
    pages[8] = None;
    let d = DeckData { keypage_id: Some("k1".to_string()), passive_ids: vec!["p1".to_string()], combat_page_ids: pages };
    let params = tiph_encode_params(&d);
    assert_eq!(11, params.len());
    assert_eq!(("k".to_string(), "k1".to_string()), params[0]);
    assert_eq!(("p".to_string(), "p1".to_string()), params[1]);
    assert_eq!(("c".to_string(), "0".to_string()), params[2]);
    assert_eq!(("c".to_string(), "-1".to_string()), params[10]);
}
