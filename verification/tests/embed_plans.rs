use binah_bot::binahbot::{DiscordEmbedColors, Emojis};
use binah_bot::deck::{generate_thumb_name, Deck, DeckData, TiphDeck};
use binah_bot::deck_commands::deck_plan;
use binah_bot::discord::{
    DiscordInteraction, DiscordInteractionData, DiscordInteractionResponseType, DiscordInteractionType,
    DiscordMessageComponentInteractionData, DiscordUser,
};
use binah_bot::abnormalities::{PartialNormalInfo, WorkProbabilityTexts};
use binah_bot::equipment::PartialWeapon;
use binah_bot::game_objects::{
    DamageRange, DamageType, EquipRequirement, EquipRequirementKey, RiskLevel, Stat, StatBonus, WeaponRange,
};
use binah_bot::lc::{lc_button, lc_button_answerable, normal_info_plan, weapon_plan};
use binah_bot::lor_embeds::{get_dietype_emoji, key_page_plan, DieType, KeyPageInfo, Rarity};
use binah_bot::spoiler::{channel_spoiler_limit, is_spoiler};

fn emojis() -> Emojis {
    Emojis {
        slash: Some("<:slash:1>".to_string()), pierce: None, blunt: None, block: None, evade: None,
        c_slash: None, c_pierce: None, c_blunt: Some("<:cblunt:2>".to_string()), c_block: None, c_evade: None,
        instinct: None, insight: None, attachment: None, repression: None, agent: None,
        red_damage: None, white_damage: None, black_damage: None, pale_damage: None,
        good_mood: None, normal_mood: None, bad_mood: None,
        risk_zayin: None, risk_teth: None, risk_he: None, risk_waw: None, risk_aleph: None,
    }
}

fn page(base_light: i32, passives: Vec<&str>) -> KeyPageInfo {
    KeyPageInfo {
        id: "250022".to_string(),
        hp: 74,
        stagger: 40,
        min_speed: 2,
        max_speed: 5,
        hp_slash: "Weak".to_string(),
        hp_pierce: "Normal".to_string(),
        hp_blunt: "Endure".to_string(),
        stagger_slash: "Fatal".to_string(),
        stagger_pierce: "Ineffective".to_string(),
        stagger_blunt: "Immune".to_string(),
        rarity: Rarity::Limited,
        base_light,
        passive_names: passives.into_iter().map(|p| p.to_string()).collect(),
    }
}

#[test]
fn die_types_are_written_as_their_emoji_or_their_name() {
    let e = emojis();
    assert_eq!("<:slash:1>", get_dietype_emoji(&e, &DieType::Slash));
    assert_eq!("Pierce", get_dietype_emoji(&e, &DieType::Pierce));
    assert_eq!("<:cblunt:2>", get_dietype_emoji(&e, &DieType::CBlunt));
    assert_eq!("CEvade", get_dietype_emoji(&e, &DieType::CEvade));
}

#[test]
fn key_page_embed_has_six_stat_fields_then_light_and_passives() {
    let p = page(4, vec!["Strike Back", "Bloodlust"]);
    let plan = key_page_plan(&p, "Xiao's Page".to_string(), &emojis(), "bucket");
    assert_eq!("Xiao's Page", plan.title);
    assert_eq!(DiscordEmbedColors::LimitedRarity.value(), plan.color);
    assert_eq!(0x6b26bf, plan.color);
    assert_eq!("https://bucket.s3.amazonaws.com/Sprite/250022.png", plan.image_url);
    assert_eq!("https://tiphereth.zasz.su/keypages/250022/", plan.url);
    let fields: Vec<(&str, &str, bool)> = plan.fields.iter().map(|f| (f.header_key, f.value.as_str(), f.inline)).collect();
    assert_eq!(
        vec![
            ("key_page_hp_header", "74", true),
            ("key_page_stagger_header", "40", true),
            ("key_page_speed_header", "2-5", true),
            ("key_page_hp_resist_header", "- <:slash:1>: Weak\n- Pierce: Normal\n- Blunt: Endure", true),
            ("key_page_stagger_resist_header", "- CSlash: Fatal\n- CPierce: Ineffective\n- <:cblunt:2>: Immune", true),
            ("key_page_rarity_header", "Limited", true),
            ("key_page_base_light_header", "4", false),
            ("key_page_passives_header", "- Strike Back\n- Bloodlust", true),
        ],
        fields
    );
}

#[test]
fn key_page_embed_leaves_out_a_base_light_of_three_and_no_passives() {
    let mut p = page(3, vec![]);
    p.min_speed = -1;
    p.rarity = Rarity::Paperback;
    let plan = key_page_plan(&p, "t".to_string(), &emojis(), "b");
    assert_eq!(6, plan.fields.len());
    assert_eq!("-1-5", plan.fields[2].value);
    assert_eq!("Paperback", plan.fields[5].value);
    assert_eq!(0x7bd671, plan.color);
    let only_passives = key_page_plan(&page(3, vec!["Solo"]), "t".to_string(), &emojis(), "b");
    assert_eq!(7, only_passives.fields.len());
    assert_eq!("key_page_passives_header", only_passives.fields[6].header_key);
    let only_light = key_page_plan(&page(0, vec![]), "t".to_string(), &emojis(), "b");
    assert_eq!(7, only_light.fields.len());
    assert_eq!(("key_page_base_light_header", "0", false), (only_light.fields[6].header_key, only_light.fields[6].value.as_str(), only_light.fields[6].inline));
}

fn deck() -> Deck {
    Deck {
        name: "Rush".to_string(),
        author_id: "42".to_string(),
        author_name: "someone".to_string(),
        description: Some("fast".to_string()),
        deck_data: DeckData {
            keypage_id: Some("250022".to_string()),
            passive_ids: vec!["1".to_string(), "2".to_string()],
            combat_page_ids: std::array::from_fn(|i| Some((i % 3).to_string())),
        },
        tiph_deck: Some(TiphDeck("abc".to_string(), 1)),
    }
}

#[test]
fn deck_embed_counts_each_combat_page_once_in_order() {
    let d = deck();
    let user = DiscordUser { id: "42".to_string(), username: "name".to_string(), avatar: "av".to_string() };
    let pages = [Some("Focus"), Some("Light"), None, Some("Focus"), Some("Light"), None, Some("Focus"), Some("Light"), None];
    let plan = deck_plan(&d, Some(&user), Some("Xiao"), &[Some("Strike Back"), None], &pages, "bucket");
    assert_eq!("Rush", plan.title);
    assert_eq!(Some("fast".to_string()), plan.description);
    assert_eq!(DiscordEmbedColors::Default.value(), plan.color);
    let thumb = generate_thumb_name(&d.deck_data.combat_page_ids);
    assert_eq!(format!("https://bucket.s3.amazonaws.com/deck_thumbnails/{}.png", thumb), plan.image_url);
    assert_eq!("@name", plan.author_name);
    assert_eq!(Some("https://cdn.discordapp.com/avatars/42/av.png".to_string()), plan.author_icon_url);
    assert_eq!(Some("https://tiphereth.zasz.su/u/decks/abc/".to_string()), plan.url);
    assert_eq!("Xiao", plan.key_page);
    assert_eq!(Some("- Strike Back\n- ???".to_string()), plan.passives);
    assert_eq!(
        vec![("Focus".to_string(), 3), ("Light".to_string(), 3), ("???".to_string(), 3)],
        plan.combat_pages
    );
}

#[test]
fn deck_embed_without_user_key_page_passives_or_code() {
    let mut d = deck();
    d.tiph_deck = None;
    d.description = None;
    let pages = [Some("A"); 9];
    let plan = deck_plan(&d, None, None, &[], &pages, "b");
    assert_eq!("42", plan.author_name);
    assert_eq!(None, plan.author_icon_url);
    assert_eq!(None, plan.url);
    assert_eq!(None, plan.description);
    assert_eq!("-", plan.key_page);
    assert_eq!(None, plan.passives);
    assert_eq!(vec![("A".to_string(), 9)], plan.combat_pages);
}

#[test]
fn spoilers_are_cards_of_chapters_past_the_channel_limit() {
    let config = vec![("chan1".to_string(), 3u8), ("chan2".to_string(), 6u8)];
    assert_eq!(Some(3), channel_spoiler_limit(&config, &Some("chan1".to_string())));
    assert_eq!(Some(6), channel_spoiler_limit(&config, &Some("chan2".to_string())));
    assert_eq!(None, channel_spoiler_limit(&config, &Some("chan3".to_string())));
    assert_eq!(None, channel_spoiler_limit(&config, &None));
    assert!(is_spoiler(Some(4), Some(3)));
    assert!(!is_spoiler(Some(3), Some(3)));
    assert!(!is_spoiler(Some(2), Some(3)));
    assert!(!is_spoiler(None, Some(3)));
    assert!(!is_spoiler(Some(7), None));
}

fn press(custom_id: &str) -> DiscordInteraction {
    DiscordInteraction {
        id: "i".to_string(),
        application_id: "a".to_string(),
        kind: DiscordInteractionType::MessageComponent,
        data: Some(DiscordInteractionData::MessageComponent(DiscordMessageComponentInteractionData {
            custom_id: custom_id.to_string(),
        })),
        channel_id: None,
        member: None,
        user: None,
        token: "t".to_string(),
        locale: None,
        guild_locale: None,
    }
}

#[test]
fn encyclopedia_buttons_update_the_message_in_place() {
    let table = vec![(100038u32, "apocalypse"), (100020, "bird")];
    assert!(lc_button_answerable(&press("lc#e#100038#en#0"), &table));
    assert!(!lc_button_answerable(&press("lc#w#100038#en#0"), &table));
    assert!(!lc_button_answerable(&press("lc#e#5#en#0"), &table));
    assert!(!lc_button_answerable(&press("lc#e#100038#xx#0"), &table));
    assert!(!lc_button_answerable(&press("delete"), &table));
    let r = lc_button(&press("lc#e#100020#kr#3"), &table);
    assert_eq!(DiscordInteractionResponseType::UpdateMessage, r.kind);
    let m = r.data.unwrap();
    assert!(m.allowed_mentions.unwrap().parse.is_empty());
    assert!(m.content.is_none() && m.embeds.is_none() && m.flags.is_none());
}

fn normal_info(qliphoth_counter: Option<i32>, is_breachable: bool) -> PartialNormalInfo {
    PartialNormalInfo {
        risk: RiskLevel::Waw,
        work_probabilities: WorkProbabilityTexts { instinct: vec![], insight: vec![], attachment: vec![], repression: vec![] },
        qliphoth_counter,
        work_damage_type: DamageType::Black,
        work_damage_range: DamageRange(4, 6),
        work_happiness_ranges: [6, 12, 18],
        work_speed: "1".to_string(),
        work_cooldown: 10,
        max_probability_reduction_count: 0,
        is_breachable,
        defenses: None,
        observation_level_bonuses: [StatBonus(Stat::SuccessRate, 6); 4],
        related_equipment: vec![],
        breaching_entities: vec![],
        image: None,
    }
}

#[test]
fn normal_abnormality_page_decides_its_fields() {
    let mut e = emojis();
    e.black_damage = Some("<:black:3>".to_string());
    let plan = normal_info_plan(100015, &normal_info(Some(2), true), &e, "bucket");
    assert_eq!(RiskLevel::Waw.color().value(), plan.color);
    assert_eq!("https://bucket.s3.amazonaws.com/lc/portrait/100015.png", plan.image_url);
    assert_eq!("100015", plan.footer);
    assert_eq!("Waw", plan.risk);
    assert_eq!("2", plan.qliphoth_counter);
    assert_eq!("<:black:3> 4 - 6", plan.work_damage);
    assert_eq!(" 13 - 18\n 7 - 12\n 0 - 6", plan.happiness);
    assert!(plan.lists_defenses);
    let quiet = normal_info_plan(1, &normal_info(None, false), &emojis(), "b");
    assert_eq!("-", quiet.qliphoth_counter);
    assert_eq!("- 4 - 6", quiet.work_damage);
    assert!(!quiet.lists_defenses);
}

fn weapon(requirements: Vec<EquipRequirement>, desc: bool) -> PartialWeapon {
    PartialWeapon {
        id: 200015,
        name_id: Some("n".to_string()),
        desc_id: if desc { Some("d".to_string()) } else { None },
        special_desc_id: None,
        risk: RiskLevel::Aleph,
        range: WeaponRange(5),
        attack_speed: "1.5".to_string(),
        damage_range: DamageRange(9, 13),
        damage_type: DamageType::Pale,
        max_collectable_amount: 1,
        equip_requirements: requirements,
        image: None,
    }
}

#[test]
fn weapon_page_decides_its_fields() {
    let reqs = vec![EquipRequirement(EquipRequirementKey::AgentLevel, 5), EquipRequirement(EquipRequirementKey::Justice, 4)];
    let plan = weapon_plan(&weapon(reqs, true), 200, &emojis());
    assert_eq!(RiskLevel::Aleph.color().value(), plan.color);
    assert_eq!("200015", plan.footer);
    assert_eq!("Aleph", plan.risk);
    assert_eq!("200", plan.cost);
    assert_eq!("1", plan.max_amount);
    assert_eq!("- 9 - 13", plan.damage);
    assert_eq!("5", plan.range);
    assert_eq!(Some("- 5; - 4".to_string()), plan.requirements);
    assert!(plan.has_description);
    assert!(!plan.has_ability_description);
    let bare = weapon_plan(&weapon(vec![], false), -3, &emojis());
    assert_eq!("-3", bare.cost);
    assert_eq!(None, bare.requirements);
    assert!(!bare.has_description);
}
