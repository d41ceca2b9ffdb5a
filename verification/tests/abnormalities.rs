use binah_bot::abnormalities::{
    child_stat_file, egg_stat_files, load_encyclopedia_list, parse, parse_child_abno, parse_egg, parse_normal_abno, parse_tool_abno,
    parse_work_probability, ObtainEquipmentNumber, PartialEncyclopediaInfo,
};
use binah_bot::game_objects::{DamageType, RiskLevel, Stat, ToolType};
use binah_bot::numbers::is_float_literal;
use binah_bot::xml::{
    find_unique_node_with_attribute, find_unique_node_with_name_and_attribute, get_first_node, get_nodes,
    get_nodes_text, get_unique_node, get_unique_node_text, XmlElement, XmlError,
};

fn el(name: &str, attrs: &[(&str, &str)], text: Option<&str>, children: Vec<XmlElement>) -> XmlElement {
    XmlElement {
        name: name.to_string(),
        attributes: attrs.iter().map(|(k, v)| (k.to_string(), v.to_string())).collect(),
        text: text.map(|t| t.to_string()),
        children,
    }
}

fn leaf(name: &str, text: &str) -> XmlElement {
    el(name, &[], Some(text), vec![])
}

fn defense(values: [&str; 4]) -> XmlElement {
    el(
        "defense",
        &[],
        None,
        vec![
            el("defenseElement", &[("type", "R")], Some(values[0]), vec![]),
            el("defenseElement", &[("type", "W")], Some(values[1]), vec![]),
            el("defenseElement", &[("type", "B")], Some(values[2]), vec![]),
            el("defenseElement", &[("type", "P")], Some(values[3]), vec![]),
        ],
    )
}

fn work_prob(code: &str, rates: &[(&str, &str)]) -> XmlElement {
    el(
        "workProb",
        &[("type", code)],
        None,
        rates.iter().map(|(l, r)| el("prob", &[("level", l)], Some(r), vec![])).collect(),
    )
}

fn normal_doc(extra: Vec<XmlElement>, cubes: &[&str], escapeable: Option<&str>, child: Option<&str>) -> XmlElement {
    let mut stat = vec![
        leaf("riskLevel", "3"),
        work_prob("R", &[("1", "0.5"), ("2", "0.45")]),
        work_prob("W", &[("1", "0.6")]),
        work_prob("B", &[("5", "0.1")]),
        work_prob("P", &[("3", "0.3"), ("3", "0.35")]),
        leaf("qliphoth", "2"),
        el("workDamage", &[("type", "W"), ("min", "2"), ("max", "4")], None, vec![]),
        el("feelingStateCubeBounds", &[], None, cubes.iter().map(|c| leaf("cube", c)).collect()),
        leaf("workSpeed", "1.5"),
        leaf("workCooltime", "10"),
        el("observeBonus", &[("type", "prob")], Some("5"), vec![]),
        el("observeBonus", &[("type", " Speed ")], Some("5"), vec![]),
        el("observeBonus", &[("type", "prob")], Some("3"), vec![]),
        el("observeBonus", &[("type", "speed")], Some("3"), vec![]),
        el("equipment", &[("equipId", "200"), ("level", "2"), ("cost", "30")], None, vec![]),
        el("equipment", &[("equipId", "300"), ("level", "4"), ("prob", "0.05")], None, vec![]),
        leaf("hp", "800"),
        leaf("speed", "2.5"),
        defense(["0.8", "1.2", "1.5", "2"]),
        el("specialDamage", &[], None, vec![el("damage", &[("type", "R")], None, vec![])]),
    ];
    if let Some(e) = escapeable {
        stat.push(leaf("escapeable", e));
    }
    stat.extend(extra);
    let mut creature = vec![el("stat", &[], None, stat)];
    if let Some(c) = child {
        creature.push(leaf("child", c));
    }
    el("creature", &[], None, creature)
}

#[test]
fn xml_queries_follow_document_order() {
    let doc = el(
        "root",
        &[("type", "top")],
        None,
        vec![
            el("a", &[("k", "1")], Some("first"), vec![el("b", &[("k", "2")], Some("inner"), vec![])]),
            el("b", &[("k", "3")], None, vec![]),
        ],
    );
    assert_eq!(get_nodes(&doc, "b").len(), 2);
    assert_eq!(get_unique_node(&doc, "b").unwrap_err(), XmlError::NotUnique);
    assert_eq!(get_unique_node(&doc, "c").unwrap_err(), XmlError::NotFound);
    assert_eq!(get_unique_node(&doc, "a").unwrap().attributes[0].1, "1");
    assert_eq!(get_unique_node(&doc, "root").unwrap().name, "root");
    assert_eq!(get_first_node(&doc, "b").unwrap().text.as_deref(), Some("inner"));
    assert_eq!(get_unique_node_text(&doc, "a").unwrap(), "first");
    assert_eq!(get_unique_node_text(&doc, "root").unwrap_err(), XmlError::NoText);
    assert_eq!(get_nodes_text(&doc, "b"), vec!["inner"]);
    assert_eq!(find_unique_node_with_name_and_attribute(&doc, "b", "k", "3").unwrap().text, None);
    assert_eq!(find_unique_node_with_attribute(&doc, "k", "2").unwrap().name, "b");
    assert_eq!(find_unique_node_with_attribute(&doc, "k", "9").unwrap_err(), XmlError::NotFound);
}

#[test]
fn float_literals_follow_std() {
    for ok in ["1.5", ".5", "1.", "-2", "+3e4", "1E-2", "inf", "-Infinity", "NaN", "0.35"] {
        assert!(is_float_literal(ok), "{ok}");
        assert!(ok.parse::<f64>().is_ok());
    }
    for bad in ["", ".", "e5", "1e", "1.2.3", " 1", "infinit", "+", "1e+", "0x10"] {
        assert!(!is_float_literal(bad), "{bad}");
        assert!(bad.parse::<f64>().is_err());
    }
}

#[test]
fn work_probability_levels() {
    let node = work_prob("R", &[("2", "0.4"), ("5", "1"), ("2", "0.45")]);
    let rates = parse_work_probability(&node).unwrap();
    assert_eq!(rates, vec![None, Some("0.45".to_string()), None, None, Some("1".to_string())]);
    assert!(parse_work_probability(&work_prob("R", &[("0", "0.4")])).is_none());
    assert!(parse_work_probability(&work_prob("R", &[("6", "0.4")])).is_none());
    assert!(parse_work_probability(&work_prob("R", &[("1", "high")])).is_none());
}

#[test]
fn normal_abnormality_reads_every_part() {
    let doc = normal_doc(vec![], &["1", "3"], None, None);
    let info = parse_normal_abno(100010, &doc, None, &[]).unwrap();
    assert_eq!(info.risk, RiskLevel::He);
    assert_eq!(info.work_probabilities.instinct[0].as_deref(), Some("0.5"));
    assert_eq!(info.work_probabilities.instinct[1].as_deref(), Some("0.45"));
    assert_eq!(info.work_probabilities.repression[2].as_deref(), Some("0.35"));
    assert_eq!(info.qliphoth_counter, Some(2));
    assert_eq!(info.work_damage_type, DamageType::White);
    assert_eq!((info.work_damage_range.0, info.work_damage_range.1), (2, 4));
    assert_eq!(info.work_happiness_ranges, [1, 3, 3]);
    assert_eq!(info.work_speed, "1.5");
    assert_eq!(info.work_cooldown, 10);
    assert_eq!(info.max_probability_reduction_count, 3);
    assert!(info.is_breachable);
    assert_eq!(info.defenses.as_ref().unwrap().pale, "2");
    assert_eq!(info.observation_level_bonuses[1].0, Stat::WorkSpeed);
    assert_eq!(info.observation_level_bonuses[0].0, Stat::SuccessRate);
    assert_eq!(info.related_equipment.len(), 2);
    assert!(matches!(info.related_equipment[0].obtain_number, ObtainEquipmentNumber::Cost(30)));
    assert!(matches!(&info.related_equipment[1].obtain_number, ObtainEquipmentNumber::Probability(p) if p == "0.05"));
    assert_eq!(info.breaching_entities.len(), 1);
    let own = &info.breaching_entities[0];
    assert_eq!(own.id, "100010");
    assert_eq!(own.hp, 800);
    assert_eq!(own.speed, "2.5");
    assert_eq!(own.damage_type, DamageType::Red);
    assert_eq!(info.image.as_deref(), Some("100010"));
}

#[test]
fn abnormality_that_does_not_escape() {
    let doc = normal_doc(vec![leaf("maxProbReductionCounter", "1")], &["2"], Some(" FALSE"), None);
    let info = parse_normal_abno(1, &doc, None, &[]).unwrap();
    assert!(!info.is_breachable);
    assert!(info.defenses.is_none());
    assert!(info.breaching_entities.is_empty());
    assert_eq!(info.work_happiness_ranges, [2, 2, 2]);
    assert_eq!(info.max_probability_reduction_count, 1);
    let negative = normal_doc(vec![leaf("maxProbReductionCounter", "-1")], &["2"], Some("true"), None);
    assert_eq!(parse_normal_abno(1, &negative, None, &[]).unwrap().max_probability_reduction_count, 3);
}

#[test]
fn malformed_abnormalities_are_refused() {
    assert!(parse_normal_abno(1, &normal_doc(vec![], &[], None, None), None, &[]).is_none());
    assert!(parse_normal_abno(1, &normal_doc(vec![], &["1", "2", "3", "4"], None, None), None, &[]).is_none());
    let five_bonuses = normal_doc(vec![el("observeBonus", &[("type", "prob")], Some("1"), vec![])], &["1"], None, None);
    assert!(parse_normal_abno(1, &five_bonuses, None, &[]).is_none());
    let unknown_bonus = normal_doc(vec![], &["1"], None, None);
    let mut broken = unknown_bonus;
    broken.children[0].children[10].attributes[0].1 = "luck".to_string();
    assert!(parse_normal_abno(1, &broken, None, &[]).is_none());
    let named_child = normal_doc(vec![], &["1"], None, Some("SmallBird_stat"));
    assert_eq!(child_stat_file(&named_child).as_deref(), Some("SmallBird_stat"));
    assert!(parse_normal_abno(1, &named_child, None, &[]).is_none());
    let bird = normal_doc(vec![], &["1"], None, Some("BossBird_stat"));
    assert_eq!(child_stat_file(&bird), None);
}

fn apostles_doc() -> XmlElement {
    let defense_with_id = |id: &str| {
        let mut d = defense(["1", "1", "1", "1"]);
        d.attributes.push(("id".to_string(), id.to_string()));
        d
    };
    el(
        "creature",
        &[],
        None,
        vec![
            leaf("riskLevel", "5"),
            el(
                "stat",
                &[],
                None,
                vec![leaf("hp", "300"), leaf("speed", "1"), defense_with_id("1"), defense_with_id("2")],
            ),
        ],
    )
}

#[test]
fn children_and_apostles() {
    let apostles = parse_child_abno("DeathAngelApostle_stat", &apostles_doc()).unwrap();
    assert_eq!(apostles.len(), 2);
    assert_eq!(apostles[0].id, "DeathAngelApostle_stat-1");
    assert_eq!(apostles[0].damage_type, DamageType::Red);
    assert_eq!(apostles[1].id, "DeathAngelApostle_stat-2");
    assert_eq!(apostles[1].damage_type, DamageType::Pale);
    assert_eq!(apostles[1].risk_level, RiskLevel::Aleph);
    // any other child without an attack type cannot be read
    assert!(parse_child_abno("Other_stat", &apostles_doc()).is_none());
    let mut typed = apostles_doc();
    typed.children.push(leaf("attackType", " Black "));
    let others = parse_child_abno("Other_stat", &typed).unwrap();
    assert_eq!(others[0].id, "Other_stat");
    assert_eq!(others[0].damage_type, DamageType::Black);

    let doc = normal_doc(vec![], &["1"], None, Some("DeathAngelApostle_stat"));
    let info = parse_normal_abno(100014, &doc, Some(&apostles_doc()), &[]).unwrap();
    assert_eq!(info.breaching_entities.len(), 3);
    assert_eq!(info.breaching_entities[2].id, "DeathAngelApostle_stat-2");
}

fn egg_doc() -> XmlElement {
    el(
        "creature",
        &[],
        None,
        vec![
            leaf("riskLevel", "5"),
            el("workDamage", &[("type", "p")], None, vec![]),
            el("stat", &[], None, vec![leaf("hp", "5000"), leaf("speed", "0"), defense(["1", "1", "1", "1"])]),
        ],
    )
}

#[test]
fn apocalypse_bird_has_its_gateway_and_eggs() {
    let files = egg_stat_files(100038);
    assert_eq!(files, vec!["BossGateWay_stat", "BigEgg_stat", "LongEgg_stat", "SmallEgg_stat"]);
    assert!(egg_stat_files(100037).is_empty());
    let egg = parse_egg("BigEgg_stat", &egg_doc()).unwrap();
    assert_eq!(egg.damage_type, DamageType::Pale);
    assert_eq!(egg.hp, 5000);
    let doc = normal_doc(vec![], &["1"], None, None);
    let eggs = [egg_doc(), egg_doc(), egg_doc(), egg_doc()];
    let info = parse_normal_abno(100038, &doc, None, &eggs).unwrap();
    assert_eq!(info.breaching_entities.len(), 5);
    assert_eq!(info.breaching_entities[4].id, "SmallEgg_stat");
    assert!(parse_normal_abno(100038, &doc, None, &eggs[..3]).is_none());
}

#[test]
fn entries_by_kind() {
    let tool = el(
        "creature",
        &[],
        None,
        vec![el("stat", &[], None, vec![leaf("workType", "kit"), leaf("riskLevel", "2"), leaf("kitType", " Equip ")])],
    );
    match parse(1, &tool, None, &[]).unwrap() {
        PartialEncyclopediaInfo::Tool(t) => {
            assert_eq!(t.risk, RiskLevel::Teth);
            assert_eq!(t.tool_type, ToolType::Equippable);
            assert_eq!(t.image.as_deref(), Some("1"));
        }
        other => panic!("expected a tool, got {:?}", other),
    }
    assert!(parse_tool_abno(1, &normal_doc(vec![], &["1"], None, None)).is_none());
    match parse(100024, &tool, None, &[]).unwrap() {
        PartialEncyclopediaInfo::DontTouchMe(d) => assert_eq!(d.risk, RiskLevel::Zayin),
        other => panic!("expected the untouchable one, got {:?}", other),
    }
    assert!(matches!(parse(5, &normal_doc(vec![], &["1"], None, None), None, &[]), Some(PartialEncyclopediaInfo::Normal(_))));
    assert!(parse(100024, &leaf("nothing", "x"), None, &[]).is_none());
}

fn creature(src: &str, id: &str, stat: &str) -> XmlElement {
    el("creature", &[("src", src), ("id", id)], None, vec![leaf("stat", stat)])
}

#[test]
fn encyclopedia_list_is_read_from_the_game_list() {
    let list = el(
        "root",
        &[],
        None,
        vec![el(
            "creature_list",
            &[],
            None,
            vec![
                creature("Punishing", "100020", "PBird_stat"),
                creature("Dawn", "200001", "Dawn_stat"),
                creature("Gebura", "400002", "Gebura_stat"),
                creature("Egg", "1000351", "Egg_stat"),
                creature("Shelter", "300006", "Shelter_stat"),
            ],
        )],
    );
    let entries = load_encyclopedia_list(&list).unwrap();
    let ids: Vec<u32> = entries.iter().map(|e| e.id).collect();
    assert_eq!(ids, vec![100020, 300006, 100038]);
    assert_eq!(entries[0].src, "Punishing");
    assert_eq!(entries[0].stat, "PBird_stat");
    assert_eq!(entries[2].stat, "ChildCreatures/BossBird_stat");
    let broken = el("creature_list", &[], None, vec![creature("X", "not a number", "s")]);
    assert!(load_encyclopedia_list(&broken).is_none());
    assert!(load_encyclopedia_list(&leaf("nothing", "")).is_none());
}
