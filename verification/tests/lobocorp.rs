use binah_bot::lc::{format_damage, managerial_guidance_texts, tool_guidance_texts};
use binah_bot::game_objects::DamageRange;
use binah_bot::reparser::{get_abno_localization, get_all_encyclopedia_ids, get_encyclopedia_info, get_localization};
use binah_bot::game_objects::{BreachingEntityLocalization, EncyclopediaInfoLocalization, LocalizationKey};
use binah_bot::game_objects::{ResistanceCategories, Stat};
use binah_bot::lc::{get_portrait_url, lookup_defenses_key, observation_level_key};
use binah_bot::lc::numbered_lines;
use binah_bot::game_objects::EquipRequirement;
use binah_bot::lc::format_equip_requirements;
use binah_bot::spoiler::spoiler_config_entries;
use binah_bot::binahbot::{BinahBotLocale, DiscordEmbedColors, Emojis};
use binah_bot::game_objects::{
    parse_damage_type_for_children, DamageType, EquipRequirementKey, RiskLevel, ToolType,
    WeaponRangeCategories,
};
use binah_bot::lc::{
    build_buttons, build_custom_id, format_happiness_range, format_happiness_ranges,
    get_damage_emoji, parse_custom_id, try_parse_custom_id, ButtonLabel, Code, EntryButtons,
};
use binah_bot::lobocorp::{canonical_language_identifier, game_locale_of_language_identifier, locale_from_language_tag, LanguageTag, Locale};
use binah_bot::reparser::{
    display_serializer, get_apostle_names, get_lcoalized_abno_file_path,
    get_localized_equipment_file_path, localization_lookup_key, serialize_option, str_serializer,
    write_vec,
};

fn no_emojis() -> Emojis {
    Emojis {
        slash: None, pierce: None, blunt: None, block: None, evade: None,
        c_slash: None, c_pierce: None, c_blunt: None, c_block: None, c_evade: None,
        instinct: None, insight: None, attachment: None, repression: None, agent: None,
        red_damage: None, white_damage: None, black_damage: None, pale_damage: None,
        good_mood: None, normal_mood: None, bad_mood: None,
        risk_zayin: None, risk_teth: None, risk_he: None, risk_waw: None, risk_aleph: None,
    }
}

#[test]
fn sanity_parse_custom_id() {
    let str = "lc#e#100038#en#0";
    assert_eq!((Code::Encyclopedia, 100038, Locale::English, 0), parse_custom_id(str));
}

#[test]
fn custom_ids_round_trip() {
    for (code, id, locale, index) in [
        (Code::Gift, 0u32, Locale::PortugueseBrazil, 3usize),
        (Code::BreachingEntity, u32::MAX, Locale::ChineseTraditional, 12),
        (Code::Weapon, 100015, Locale::Korean, 0),
    ] {
        let s = build_custom_id(&code, &id, &locale, &index);
        assert_eq!((code, id, locale, index), parse_custom_id(&s));
    }
    assert_eq!("lc#s#7#ru#1", build_custom_id(&Code::Suit, &7, &Locale::Russian, &1));
}

#[test]
fn malformed_custom_ids_do_not_read() {
    assert_eq!(None, try_parse_custom_id("lc#e#100038#en"));
    assert_eq!(None, try_parse_custom_id("lc#x#100038#en#0"));
    assert_eq!(None, try_parse_custom_id("lc#e#-1#en#0"));
    assert_eq!(None, try_parse_custom_id("lc#e#4294967296#en#0"));
    assert_eq!(None, try_parse_custom_id("lc#e#1#english#0"));
    assert_eq!(Some((Code::Suit, 5, Locale::French, 2)), try_parse_custom_id("lc#s#+5#fr#2#extra"));
}

#[test]
fn buttons_come_five_to_a_row() {
    let entry = EntryButtons::Normal { breaching_entities: 2, is_breachable: true, has_weapon: true, has_suit: true, gifts: 3 };
    let rows = build_buttons(100015, &Locale::English, &(Code::Gift, 1), &entry);
    assert_eq!(2, rows.len());
    assert_eq!(5, rows[0].len());
    assert_eq!(4, rows[1].len());
    let labels: Vec<ButtonLabel> = rows.iter().flatten().map(|b| b.label).collect();
    assert_eq!(
        vec![
            ButtonLabel::Encyclopedia,
            ButtonLabel::Breaching,
            ButtonLabel::BreachingChild(1),
            ButtonLabel::Weapon,
            ButtonLabel::Suit,
            ButtonLabel::Gift(0),
            ButtonLabel::Gift(1),
            ButtonLabel::Gift(2),
            ButtonLabel::Delete,
        ][..],
        labels[..9]
    );
    let disabled: Vec<bool> = rows.iter().flatten().map(|b| b.disabled).collect();
    assert_eq!(vec![false, false, false, false, false, false, true, false, false], disabled[..9].to_vec());
    assert_eq!(Some("lc#g#100015#en#2".to_string()), rows[1][2].custom_id);
    assert_eq!(None, rows[1][3].custom_id);
}

#[test]
fn other_entries_have_two_buttons() {
    let rows = build_buttons(300109, &Locale::Korean, &(Code::Encyclopedia, 0), &EntryButtons::Other);
    assert_eq!(1, rows.len());
    assert_eq!(2, rows[0].len());
    assert!(rows[0][0].disabled);
    assert_eq!(ButtonLabel::Delete, rows[0][1].label);
}

#[test]
fn happiness_ranges_skip_empty_moods() {
    let mut emojis = no_emojis();
    emojis.good_mood = Some(":)".to_string());
    assert_eq!(":) 11 - 20", format_happiness_range(&11, &20, &Some(":)".to_string())));
    assert_eq!(" 0 - 6", format_happiness_range(&0, &6, &None));
    assert_eq!(":) 15 - 20\n 7 - 14\n 0 - 6", format_happiness_ranges(&[6, 14, 20], &emojis));
    assert_eq!(" 0 - 6", format_happiness_ranges(&[6, 6, 6], &emojis));
    assert_eq!(":) 0 - 3", format_happiness_ranges(&[-1, -1, 3], &emojis));
}

#[test]
fn damage_emoji_is_the_configured_one() {
    let mut emojis = no_emojis();
    emojis.pale_damage = Some("<pale>".to_string());
    assert_eq!(Some(&"<pale>".to_string()), get_damage_emoji(&DamageType::Pale, &emojis));
    assert_eq!(None, get_damage_emoji(&DamageType::Red, &emojis));
}

#[test]
fn game_locale_codes_round_trip() {
    for l in Locale::all() {
        assert_eq!(Some(l), Locale::from_str(&l.to_string()));
    }
    assert_eq!("cn_tr", Locale::ChineseTraditional.to_string());
    assert_eq!(None, Locale::from_str("zz"));
    assert_eq!(11, Locale::all().len());
}

#[test]
fn language_identifiers_map_to_game_locales() {
    for l in Locale::all() {
        assert_eq!(Some(l), game_locale_of_language_identifier(&l.language_tag()));
    }
    assert_eq!(Some("es-US".to_string()), canonical_language_identifier("es-us"));
    assert_eq!(Some(Locale::Spanish), game_locale_of_language_identifier("es-us"));
    assert_eq!(Some(Locale::English), game_locale_of_language_identifier("de-DE"));
    assert_eq!(Some(Locale::Russian), game_locale_of_language_identifier("ru"));
    assert_eq!(None, game_locale_of_language_identifier("not a tag!"));
    let tag = LanguageTag { canonical: "bg-BG".to_string(), language: "bg".to_string() };
    assert_eq!(Locale::Bulgarian, locale_from_language_tag(&tag));
}

#[test]
fn bot_and_game_locales_convert() {
    assert_eq!(BinahBotLocale::ChineseTaiwan, Locale::ChineseTraditional.to_binahbot_locale());
    assert_eq!(BinahBotLocale::Other, Locale::French.to_binahbot_locale());
    assert_eq!(Locale::English, Locale::from_binahbot_locale(&BinahBotLocale::Other));
    assert_eq!(Locale::Japanese, Locale::from_binahbot_locale(&BinahBotLocale::Japanese));
}

#[test]
fn risk_levels_read_from_numbers() {
    assert_eq!(Ok(RiskLevel::Zayin), RiskLevel::try_from_i32(1));
    assert_eq!(Ok(RiskLevel::Aleph), RiskLevel::try_from_i32(5));
    assert_eq!(Err("invalid risk level".to_string()), RiskLevel::try_from_i32(0));
    assert_eq!(DiscordEmbedColors::Teth, RiskLevel::Teth.color());
    assert_eq!("Waw", RiskLevel::Waw.to_string());
}

#[test]
fn damage_types_read_from_codes_in_either_case() {
    assert_eq!(Ok(DamageType::Black), DamageType::try_from_str("B"));
    assert_eq!(Ok(DamageType::Pale), DamageType::try_from_str("p"));
    assert_eq!(Err("invalid damage type".to_string()), DamageType::try_from_str("x"));
    assert_eq!(Ok(EquipRequirementKey::AgentLevel), EquipRequirementKey::try_from_str("LEVEL"));
    assert_eq!(Ok(EquipRequirementKey::Temperance), EquipRequirementKey::try_from_str("b"));
    assert_eq!(Err("invalid damage type".to_string()), EquipRequirementKey::try_from_str("level2"));
}

#[test]
fn tool_types_read_trimmed_words() {
    assert_eq!(Ok(ToolType::SustainedUse), ToolType::try_from_str("  Channel \n"));
    assert_eq!(Ok(ToolType::SingleUse), ToolType::try_from_str("ONESHOT"));
    assert_eq!(Err("invalid tool type".to_string()), ToolType::try_from_str("equip it"));
    assert_eq!(Some(DamageType::White), parse_damage_type_for_children(" White "));
    assert_eq!(None, parse_damage_type_for_children("UNKNOWN"));
}

#[test]
fn weapon_ranges_fall_in_categories() {
    assert_eq!(WeaponRangeCategories::VeryShort, WeaponRangeCategories::from_u32(2));
    assert_eq!(WeaponRangeCategories::Short, WeaponRangeCategories::from_u32(3));
    assert_eq!(WeaponRangeCategories::Medium, WeaponRangeCategories::from_u32(4));
    assert_eq!(WeaponRangeCategories::Long, WeaponRangeCategories::from_u32(15));
    assert_eq!(WeaponRangeCategories::VeryLong, WeaponRangeCategories::from_u32(16));
}

#[test]
fn serializers_write_source_text() {
    assert_eq!("Some(5)", serialize_option(&Some(5), display_serializer));
    assert_eq!("None", serialize_option(&None::<i32>, display_serializer));
    assert_eq!("Some(\"x\")", serialize_option(&Some("x".to_string()), str_serializer));
    assert_eq!("true", display_serializer(&true));
    assert_eq!("[a,b]", write_vec(&["a".to_string(), "b".to_string()]));
    assert_eq!("[]", write_vec(&[]));
}

#[test]
fn game_file_paths() {
    assert_eq!(
        "./data/Language/en/creatures/Bird_en.xml",
        get_lcoalized_abno_file_path(&Locale::English, "Bird")
    );
    assert_eq!(
        "./data/Language/Localize/pt_br/Equipment_pt_br.xml",
        get_localized_equipment_file_path(&Locale::PortugueseBrazil)
    );
    assert_eq!("DeathAngel_weapon_desc#English", localization_lookup_key("DeathAngel_weapon_desc", &Locale::English));
}

#[test]
fn apostles_are_named_in_english() {
    let names = get_apostle_names(&Locale::Korean);
    assert_eq!(["Scythe Apostle", "Guardian Apostle", "Staff Apostle", "Spear Apostle"].map(|x| x.to_string()), names);
}

#[test]
fn portraits_defenses_and_observation_keys() {
    assert_eq!("https://b.s3.amazonaws.com/lc/portrait/100020.png", get_portrait_url(100020, "b"));
    assert_eq!("endured_defenses_value", lookup_defenses_key(&ResistanceCategories::Endured));
    assert_eq!("observation_level_speed_rate", observation_level_key(&Stat::WorkSpeed));
    assert_eq!("observation_level_success_rate", observation_level_key(&Stat::SuccessRate));
}

#[test]
fn observation_lines_are_numbered() {
    assert_eq!("1. a\n2. b", numbered_lines(&["a".to_string(), "b".to_string()]));
    assert_eq!("", numbered_lines(&[]));
}

#[test]
fn equip_requirements_show_emoji_or_dash() {
    let mut emojis = no_emojis();
    emojis.instinct = Some("<i>".to_string());
    let reqs = [
        EquipRequirement(EquipRequirementKey::Fortitude, 3),
        EquipRequirement(EquipRequirementKey::AgentLevel, -1),
    ];
    assert_eq!("<i> 3; - -1", format_equip_requirements(&reqs, &emojis));
}

#[test]
fn spoiler_limits_skip_unset_channels() {
    let entries = vec![
        ("1".to_string(), Some("Canard".to_string())),
        ("2".to_string(), Some("None".to_string())),
        ("3".to_string(), None),
    ];
    assert_eq!(vec![("1".to_string(), "Chapter::Canard".to_string())], spoiler_config_entries(&entries));
}

#[test]
fn lookups_go_by_id_and_language() {
    let table = vec![
        ("DeathAngel_weapon_desc#Korean".to_string(), "ko text".to_string()),
        ("DeathAngel_weapon_desc#English".to_string(), "en text".to_string()),
    ];
    let key = LocalizationKey("DeathAngel_weapon_desc", Locale::English);
    assert_eq!(Some(&"en text".to_string()), get_localization(&table, &key));
    let missing = LocalizationKey("DeathAngel_weapon_desc", Locale::French);
    assert_eq!(None, get_localization(&table, &missing));

    let whitenight = EncyclopediaInfoLocalization {
        id: "100015",
        name: "WhiteNight",
        other_names: &[],
        code: "T-03-46",
        selection_text: None,
        managerial_guidances: &[],
        story: &[],
        breaching_entity_localizations: &[],
        narration_map: &[],
    };
    let abnos = vec![("100015#English".to_string(), whitenight)];
    assert_eq!("WhiteNight", get_abno_localization(&abnos, &100015, &Locale::English).unwrap().name);
    assert!(get_abno_localization(&abnos, &100015, &Locale::Korean).is_none());
    assert_eq!(vec![3, 1, 2], get_all_encyclopedia_ids(&[(3u32, ()), (1, ()), (2, ())]));
}

#[test]
fn guidance_texts_put_the_name_in() {
    assert_eq!(vec!["a X b".to_string(), "$1".to_string()], managerial_guidance_texts(&["a $0 b", "$1"], "X"));
    assert_eq!(
        vec!["story Shelter\ng1".to_string(), "-\ng2 Shelter".to_string()],
        tool_guidance_texts(&["story $0"], &["g1", "g2 $0"], "Shelter")
    );
    assert!(tool_guidance_texts(&[], &[], "x").is_empty());
}

#[test]
fn weapon_damage_is_shown_with_its_emoji() {
    let mut emojis = no_emojis();
    assert_eq!("- 3 - 5", format_damage(&DamageType::Red, &DamageRange(3, 5), &emojis));
    emojis.black_damage = Some("<b>".to_string());
    assert_eq!("<b> 1 - 2", format_damage(&DamageType::Black, &DamageRange(1, 2), &emojis));
}

// The localization tables are generated from the game's files; these tests read from a
// table that holds the entries they look up.

#[test]
fn sanity_get_localization() {
    let text = "*Behold: you stood at the door and knocked, and it was opened to you.*\n*I come from the end, and I am here to stay for but a moment.*\n*At the same time, I am the one who kindled the light to face the world.*\n*My loved ones, who now eagerly desire the greater gifts; I will show you the most excellent way.*";
    let table = vec![("DeathAngel_weapon_desc#English".to_string(), text.to_string())];
    let paradise_lost_desc = LocalizationKey("DeathAngel_weapon_desc", Locale::English);
    let result = get_localization(&table, &paradise_lost_desc).expect("couldn't find");

    assert_eq!(
        "*Behold: you stood at the door and knocked, and it was opened to you.*\n*I come from the end, and I am here to stay for but a moment.*\n*At the same time, I am the one who kindled the light to face the world.*\n*My loved ones, who now eagerly desire the greater gifts; I will show you the most excellent way.*",
        *result
    );
}

#[test]
fn sanity_whitenight_display_names() {
    let entities = [
        BreachingEntityLocalization { id: "100015", name: "WhiteNight", code: None },
        BreachingEntityLocalization { id: "DeathAngelApostle_stat-1", name: "Scythe Apostle", code: None },
        BreachingEntityLocalization { id: "DeathAngelApostle_stat-2", name: "Guardian Apostle", code: None },
        BreachingEntityLocalization { id: "DeathAngelApostle_stat-3", name: "Staff Apostle", code: None },
        BreachingEntityLocalization { id: "DeathAngelApostle_stat-4", name: "Spear Apostle", code: None },
    ];
    let localization = EncyclopediaInfoLocalization {
        id: "100015",
        name: "WhiteNight",
        other_names: &[],
        code: "T-03-46",
        selection_text: None,
        managerial_guidances: &[],
        story: &[],
        breaching_entity_localizations: &entities,
        narration_map: &[],
    };
    let table = vec![("100015#English".to_string(), localization)];
    let whitenight = get_abno_localization(&table, &100015, &Locale::English).unwrap();
    let names = whitenight.breaching_entity_localizations.iter().map(|x| x.name);
    let expected = ["WhiteNight", "Scythe Apostle", "Guardian Apostle", "Staff Apostle", "Spear Apostle"];
    names.enumerate().for_each(|(i, x)| {
        assert_eq!(expected[i], x);
    });
}

#[test]
fn encyclopedia_entries_are_found_by_id() {
    let table = vec![(100020u32, "bird"), (100038, "apocalypse"), (100035, "queen")];
    assert_eq!(Some(&"bird"), get_encyclopedia_info(&table, &100020));
    assert_eq!(Some(&"apocalypse"), get_encyclopedia_info(&table, &100038));
    assert_eq!(None, get_encyclopedia_info(&table, &1));
}

#[test]
fn encyclopedia_ids_are_the_lookup_keys() {
    let table = vec![(100020u32, "bird"), (100038, "apocalypse"), (300006, "shelter")];
    let ids = get_all_encyclopedia_ids(&table);
    assert_eq!(vec![100020, 100038, 300006], ids);
    for id in &ids {
        assert!(get_encyclopedia_info(&table, id).is_some());
    }
    assert!(get_encyclopedia_info(&table, &5).is_none());
}
