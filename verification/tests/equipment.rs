use binah_bot::equipment::{is_debug_equipment, parse_suit, parse_weapon};
use binah_bot::game_objects::{DamageType, EquipRequirementKey, RiskLevel};
use binah_bot::xml::XmlElement;

fn el(name: &str, attrs: &[(&str, &str)], text: Option<&str>, children: Vec<XmlElement>) -> XmlElement {
    XmlElement {
        name: name.to_string(),
        attributes: attrs.iter().map(|(k, v)| (k.to_string(), v.to_string())).collect(),
        text: text.map(|t| t.to_string()),
        children,
    }
}

fn leaf(name: &str, text: &str) -> XmlElement {
    el(name, &[], Some(text), vec![])
}

fn weapon(extra: Vec<XmlElement>) -> XmlElement {
    let mut children = vec![
        leaf("name", "Weapon_Name_1"),
        leaf("grade", "4"),
        leaf("range", "3"),
        leaf("attackSpeed", "1.2"),
        el("damage", &[("min", " 5 "), ("max", "7"), ("type", "B")], None, vec![]),
        el("damage", &[("min", "1"), ("max", "1"), ("type", "R")], None, vec![]),
        el("require", &[("type", "r")], Some("3"), vec![]),
        leaf("sprite", "Weapon_1"),
    ];
    children.extend(extra);
    el("equipment", &[("id", "1001"), ("type", "weapon")], None, children)
}

#[test]
fn weapons_are_read_from_the_list() {
    let w = parse_weapon(&weapon(vec![])).unwrap();
    assert_eq!(w.id, 1001);
    assert_eq!(w.name_id.as_deref(), Some("Weapon_Name_1"));
    assert_eq!(w.desc_id, None);
    assert_eq!(w.risk, RiskLevel::Waw);
    assert_eq!(w.range.0, 3);
    assert_eq!(w.attack_speed, "1.2");
    assert_eq!((w.damage_range.0, w.damage_range.1), (5, 7));
    assert_eq!(w.damage_type, DamageType::Black);
    assert_eq!(w.max_collectable_amount, i32::MAX);
    assert_eq!(w.equip_requirements.len(), 1);
    assert_eq!(w.equip_requirements[0].0, EquipRequirementKey::Fortitude);
    assert_eq!(w.image.as_deref(), Some("Weapon_1"));
    let limited = parse_weapon(&weapon(vec![leaf("maxNum", "2")])).unwrap();
    assert_eq!(limited.max_collectable_amount, 2);
}

#[test]
fn malformed_weapons_are_refused() {
    let mut no_grade = weapon(vec![]);
    no_grade.children.remove(1);
    assert!(parse_weapon(&no_grade).is_none());
    let mut slow = weapon(vec![]);
    slow.children[3].text = Some("fast".to_string());
    assert!(parse_weapon(&slow).is_none());
    let bad_requirement = weapon(vec![el("require", &[("type", "x")], Some("1"), vec![])]);
    assert!(parse_weapon(&bad_requirement).is_none());
}

fn suit(grade: Option<&str>) -> XmlElement {
    let mut children = vec![
        leaf("armorId", "7"),
        el(
            "defense",
            &[],
            None,
            vec![
                el("d", &[("type", "R")], Some("0.5"), vec![]),
                el("d", &[("type", "W")], Some("1"), vec![]),
                el("d", &[("type", "B")], Some("1.5"), vec![]),
                el("d", &[("type", "P")], Some("2"), vec![]),
            ],
        ),
    ];
    if let Some(g) = grade {
        children.push(leaf("grade", g));
    }
    el("equipment", &[("id", "2001"), ("type", "armor")], None, children)
}

#[test]
fn suits_are_read_from_the_list() {
    let s = parse_suit(&suit(Some("5"))).unwrap();
    assert_eq!(s.id, 2001);
    assert_eq!(s.armor_id, "7");
    assert_eq!(s.defenses.red, "0.5");
    assert_eq!(s.risk, RiskLevel::Aleph);
    assert!(s.image.is_none());
    assert_eq!(parse_suit(&suit(None)).unwrap().risk, RiskLevel::Zayin);
    assert_eq!(parse_suit(&suit(Some("9"))).unwrap().risk, RiskLevel::Zayin);
    let mut bare = suit(None);
    bare.children.remove(1);
    assert!(parse_suit(&bare).is_none());
}

#[test]
fn debug_equipment_is_left_out() {
    assert!(is_debug_equipment(177777));
    assert!(is_debug_equipment(1200001));
    assert!(!is_debug_equipment(1001));
}
