use vstd::prelude::*;

use crate::abnormalities::{
    damage_code_of, defense_view, defenses_spec, float_of, get_defenses, int_of, risk_of, str_opt, unique_spec,
    unique_text_spec, DefenseTexts,
};
use crate::filters::lowercase_spec;
use crate::game_objects::{
    equip_requirement_of_code, DamageRange, DamageType, EquipRequirement,
    EquipRequirementKey, RiskLevel, WeaponRange,
};
use crate::numbers::{is_float_literal, parse_i32, parse_u32, parse_unsigned};
use crate::text::{trim, trim_spec};
use crate::xml::{
    attribute, attribute_of, descendants, get_first_node, get_nodes, get_unique_node, get_unique_node_text, tagged,
    text_of, XmlElement,
};

verus! {

/// A weapon as the game's equipment list describes it. Its attack speed is the text of an
/// `f64`.
#[derive(Debug)]
pub struct PartialWeapon {
    pub id: u32,
    pub name_id: Option<String>,
    pub desc_id: Option<String>,
    pub special_desc_id: Option<String>,
    pub risk: RiskLevel,
    pub range: WeaponRange,
    pub attack_speed: String,
    pub damage_range: DamageRange,
    pub damage_type: DamageType,
    pub max_collectable_amount: i32,
    pub equip_requirements: Vec<EquipRequirement>,
    pub image: Option<String>,
}

/// A suit as the game's equipment list describes it.
#[derive(Debug)]
pub struct PartialSuit {
    pub id: u32,
    pub name_id: Option<String>,
    pub desc_id: Option<String>,
    pub special_desc_id: Option<String>,
    pub armor_id: String,
    pub defenses: DefenseTexts,
    pub risk: RiskLevel,
    pub equip_requirements: Vec<EquipRequirement>,
    pub max_collectable_amount: i32,
    pub image: Option<String>,
}

/// An optional text as plain values.
pub open spec fn opt_string_view(o: Option<String>) -> Option<Seq<char>> {
    match o {
        Some(s) => Some(s@),
        None => None,
    }
}

/// The id of a piece of equipment.
pub open spec fn equipment_id_spec(node: XmlElement) -> Option<nat> {
    match attribute_of(node, "id"@) {
        Some(a) => parse_unsigned(a, u32::MAX as nat),
        None => None,
    }
}

/// How many of a piece of equipment can be had: its `maxNum` where that is a number, else
/// no limit (`i32::MAX`).
pub open spec fn max_amount_spec(node: XmlElement) -> int {
    match int_of(unique_text_spec(node, "maxNum"@)) {
        Some(x) => x,
        None => i32::MAX as int,
    }
}

/// One `require` element: the stat it names and the level it asks for.
pub open spec fn requirement_spec(e: XmlElement) -> Option<(EquipRequirementKey, int)> {
    let key = match attribute_of(e, "type"@) {
        Some(t) => equip_requirement_of_code(lowercase_spec(t)),
        None => None,
    };
    match (key, int_of(text_of(e))) {
        (Some(k), Some(v)) => Some((k, v)),
        _ => None,
    }
}

/// The requirements of a list of `require` elements; none where one cannot be read.
pub open spec fn requirements_spec(s: Seq<XmlElement>) -> Option<Seq<(EquipRequirementKey, int)>>
    decreases s.len(),
{
    if s.len() == 0 {
        Some(Seq::empty())
    } else {
        match (requirements_spec(s.drop_last()), requirement_spec(s.last())) {
            (Some(v), Some(r)) => Some(v.push(r)),
            _ => None,
        }
    }
}

/// A requirement as plain values.
pub open spec fn requirement_view(r: EquipRequirement) -> (EquipRequirementKey, int) {
    (r.0, r.1 as int)
}

/// Requirements as plain values.
pub open spec fn requirements_view(v: Seq<EquipRequirement>) -> Seq<(EquipRequirementKey, int)> {
    v.map_values(|r: EquipRequirement| requirement_view(r))
}

/// The text of the only element named `name`, where there is one.
fn optional_text(node: &XmlElement, name: &str) -> (r: Option<String>)
    ensures
        opt_string_view(r) == unique_text_spec(*node, name@),
{
    match get_unique_node_text(node, name) {
        Ok(t) => Some(t.to_owned()),
        Err(_) => None,
    }
}

/// Reads the id of a piece of equipment.
fn equipment_id(node: &XmlElement) -> (r: Option<u32>)
    ensures
        match r {
            Some(id) => equipment_id_spec(*node) == Some(id as nat),
            None => equipment_id_spec(*node) is None,
        },
{
    match attribute(node, "id") {
        Some(a) => parse_u32(a),
        None => None,
    }
}

/// Reads how many of a piece of equipment can be had.
fn max_amount(node: &XmlElement) -> (r: i32)
    ensures
        r as int == max_amount_spec(*node),
{
    let t = match get_unique_node_text(node, "maxNum") {
        Ok(t) => Some(t),
        Err(_) => None,
    };
    match t {
        Some(x) => match parse_i32(x) {
            Some(v) => v,
            None => i32::MAX,
        },
        None => i32::MAX,
    }
}

/// Reads one requirement.
fn requirement(e: &XmlElement) -> (r: Option<EquipRequirement>)
    ensures
        match r {
            Some(x) => requirement_spec(*e) == Some(requirement_view(x)),
            None => requirement_spec(*e) is None,
        },
{
    let key = match attribute(e, "type") {
        Some(t) => match EquipRequirementKey::try_from_str(t) {
            Ok(k) => Some(k),
            Err(_) => None,
        },
        None => None,
    };
    let value = match &e.text {
        Some(t) => parse_i32(t.as_str()),
        None => None,
    };
    match (key, value) {
        (Some(k), Some(v)) => Some(EquipRequirement(k, v)),
        _ => None,
    }
}

proof fn lemma_requirements_prefix_none(s: Seq<XmlElement>, k: int)
    requires
        0 <= k <= s.len(),
        requirements_spec(s.take(k)) is None,
    ensures
        requirements_spec(s) is None,
    decreases s.len() - k,
{
    if k == s.len() {
        assert(s.take(k) =~= s);
    } else {
        assert(s.take(k + 1).drop_last() =~= s.take(k));
        lemma_requirements_prefix_none(s, k + 1);
    }
}

/// Reads the requirements to equip a piece of equipment.
fn requirements(node: &XmlElement) -> (r: Option<Vec<EquipRequirement>>)
    ensures
        match r {
            Some(v) => requirements_spec(tagged(descendants(*node), "require"@)) == Some(requirements_view(v@)),
            None => requirements_spec(tagged(descendants(*node), "require"@)) is None,
        },
{
    let nodes = get_nodes(node, "require");
    let ghost all = tagged(descendants(*node), "require"@);
    let mut out: Vec<EquipRequirement> = Vec::new();
    let mut i: usize = 0;
    assert(requirements_view(out@) =~= Seq::<(EquipRequirementKey, int)>::empty());
    while i < nodes.len()
        invariant
            i <= nodes.len(),
            crate::xml::derefs(nodes@) == all,
            all == tagged(descendants(*node), "require"@),
            requirements_spec(all.take(i as int)) == Some(requirements_view(out@)),
        decreases nodes.len() - i,
    {
        let ghost t = all.take(i + 1);
        assert(t.drop_last() =~= all.take(i as int));
        assert(t.last() == *nodes@[i as int]);
        match requirement(nodes[i]) {
            Some(x) => {
                let ghost before = out@;
                out.push(x);
                assert(requirements_view(out@) =~= requirements_view(before).push(requirement_view(x)));
            },
            None => {
                proof {
                    lemma_requirements_prefix_none(all, i + 1);
                }
                return None;
            },
        }
        i = i + 1;
    }
    assert(all.take(all.len() as int) =~= all);
    Some(out)
}

/// A number written in an attribute, with any surrounding whitespace.
pub open spec fn trimmed_int_of(a: Option<Seq<char>>) -> Option<int> {
    match a {
        Some(t) => int_of(Some(trim_spec(t))),
        None => None,
    }
}

/// The damage of a weapon: that of its first `damage` element, whose bounds may be written
/// with surrounding whitespace.
pub open spec fn weapon_damage_spec(node: XmlElement) -> Option<(int, int, DamageType)> {
    let t = tagged(descendants(node), "damage"@);
    if t.len() > 0 {
        match (trimmed_int_of(attribute_of(t[0], "min"@)), trimmed_int_of(attribute_of(t[0], "max"@)), damage_code_of(
            attribute_of(t[0], "type"@),
        )) {
            (Some(lo), Some(hi), Some(d)) => Some((lo, hi, d)),
            _ => None,
        }
    } else {
        None
    }
}

/// Whether the equipment list holds every part of a weapon.
pub open spec fn weapon_readable(node: XmlElement) -> bool {
    &&& equipment_id_spec(node) is Some
    &&& risk_of(unique_text_spec(node, "grade"@)) is Some
    &&& (match unique_text_spec(node, "range"@) {
        Some(t) => parse_unsigned(t, u32::MAX as nat) is Some,
        None => false,
    })
    &&& float_of(unique_text_spec(node, "attackSpeed"@)) is Some
    &&& weapon_damage_spec(node) is Some
    &&& requirements_spec(tagged(descendants(node), "require"@)) is Some
}

/// Whether `w` is the weapon that the element describes.
pub open spec fn weapon_holds(w: PartialWeapon, node: XmlElement) -> bool {
    &&& equipment_id_spec(node) == Some(w.id as nat)
    &&& opt_string_view(w.name_id) == unique_text_spec(node, "name"@)
    &&& opt_string_view(w.desc_id) == unique_text_spec(node, "desc"@)
    &&& opt_string_view(w.special_desc_id) == unique_text_spec(node, "specialDesc"@)
    &&& risk_of(unique_text_spec(node, "grade"@)) == Some(w.risk)
    &&& (match unique_text_spec(node, "range"@) {
        Some(t) => parse_unsigned(t, u32::MAX as nat) == Some(w.range.0 as nat),
        None => false,
    })
    &&& float_of(unique_text_spec(node, "attackSpeed"@)) == Some(w.attack_speed@)
    &&& weapon_damage_spec(node) == Some((w.damage_range.0 as int, w.damage_range.1 as int, w.damage_type))
    &&& w.max_collectable_amount as int == max_amount_spec(node)
    &&& requirements_spec(tagged(descendants(node), "require"@)) == Some(requirements_view(w.equip_requirements@))
    &&& opt_string_view(w.image) == unique_text_spec(node, "sprite"@)
}

/// Reads a number written in an attribute, with any surrounding whitespace.
fn trimmed_int(a: Option<&str>) -> (r: Option<i32>)
    ensures
        match r {
            Some(v) => trimmed_int_of(str_opt(a)) == Some(v as int),
            None => trimmed_int_of(str_opt(a)) is None,
        },
{
    match a {
        Some(t) => {
            let x = trim(t);
            parse_i32(x.as_str())
        },
        None => None,
    }
}

/// Reads a weapon from its element of the equipment list; none where a part is missing or
/// malformed.
pub fn parse_weapon(node: &XmlElement) -> (r: Option<PartialWeapon>)
    ensures
        match r {
            Some(w) => weapon_readable(*node) && weapon_holds(w, *node),
            None => !weapon_readable(*node),
        },
{
    let id = match equipment_id(node) {
        Some(id) => id,
        None => {
            return None;
        },
    };
    let name_id = optional_text(node, "name");
    let desc_id = optional_text(node, "desc");
    let special_desc_id = optional_text(node, "specialDesc");
    let grade = match get_unique_node_text(node, "grade") {
        Ok(t) => Some(t),
        Err(_) => None,
    };
    let risk = match grade {
        Some(g) => match parse_i32(g) {
            Some(v) => match RiskLevel::try_from_i32(v) {
                Ok(r) => r,
                Err(_) => {
                    return None;
                },
            },
            None => {
                return None;
            },
        },
        None => {
            return None;
        },
    };
    let range = match get_unique_node_text(node, "range") {
        Ok(t) => match parse_u32(t) {
            Some(v) => WeaponRange(v),
            None => {
                return None;
            },
        },
        Err(_) => {
            return None;
        },
    };
    let attack_speed = match get_unique_node_text(node, "attackSpeed") {
        Ok(t) => if is_float_literal(t) {
            t.to_owned()
        } else {
            return None;
        },
        Err(_) => {
            return None;
        },
    };
    let damage_node = match get_first_node(node, "damage") {
        Some(d) => d,
        None => {
            return None;
        },
    };
    let min = trimmed_int(attribute(damage_node, "min"));
    let max = trimmed_int(attribute(damage_node, "max"));
    let damage_type = match attribute(damage_node, "type") {
        Some(t) => match DamageType::try_from_str(t) {
            Ok(d) => Some(d),
            Err(_) => None,
        },
        None => None,
    };
    let (min, max, damage_type) = match (min, max, damage_type) {
        (Some(a), Some(b), Some(d)) => (a, b, d),
        _ => {
            return None;
        },
    };
    let max_collectable_amount = max_amount(node);
    let equip_requirements = match requirements(node) {
        Some(r) => r,
        None => {
            return None;
        },
    };
    let image = optional_text(node, "sprite");
    Some(
        PartialWeapon {
            id,
            name_id,
            desc_id,
            special_desc_id,
            risk,
            range,
            attack_speed,
            damage_range: DamageRange(min, max),
            damage_type,
            max_collectable_amount,
            equip_requirements,
            image,
        },
    )
}

/// The risk level of a suit: its `grade` where that is a number of a level, else Zayin.
pub open spec fn suit_risk_spec(node: XmlElement) -> RiskLevel {
    match risk_of(unique_text_spec(node, "grade"@)) {
        Some(r) => r,
        None => RiskLevel::Zayin,
    }
}

/// Whether the equipment list holds every part of a suit.
pub open spec fn suit_readable(node: XmlElement) -> bool {
    &&& equipment_id_spec(node) is Some
    &&& unique_text_spec(node, "armorId"@) is Some
    &&& (match unique_spec(node, "defense"@) {
        Some(d) => defenses_spec(d) is Some,
        None => false,
    })
    &&& requirements_spec(tagged(descendants(node), "require"@)) is Some
}

/// Whether `s` is the suit that the element describes.
pub open spec fn suit_holds(s: PartialSuit, node: XmlElement) -> bool {
    &&& equipment_id_spec(node) == Some(s.id as nat)
    &&& opt_string_view(s.name_id) == unique_text_spec(node, "name"@)
    &&& opt_string_view(s.desc_id) == unique_text_spec(node, "desc"@)
    &&& opt_string_view(s.special_desc_id) == unique_text_spec(node, "specialDesc"@)
    &&& unique_text_spec(node, "armorId"@) == Some(s.armor_id@)
    &&& (match unique_spec(node, "defense"@) {
        Some(d) => defenses_spec(d) == Some(defense_view(s.defenses)),
        None => false,
    })
    &&& s.risk == suit_risk_spec(node)
    &&& requirements_spec(tagged(descendants(node), "require"@)) == Some(requirements_view(s.equip_requirements@))
    &&& s.max_collectable_amount as int == max_amount_spec(node)
    &&& s.image is None
}

/// Reads a suit from its element of the equipment list; none where a part is missing or
/// malformed.
pub fn parse_suit(node: &XmlElement) -> (r: Option<PartialSuit>)
    ensures
        match r {
            Some(s) => suit_readable(*node) && suit_holds(s, *node),
            None => !suit_readable(*node),
        },
{
    let id = match equipment_id(node) {
        Some(id) => id,
        None => {
            return None;
        },
    };
    let name_id = optional_text(node, "name");
    let desc_id = optional_text(node, "desc");
    let special_desc_id = optional_text(node, "specialDesc");
    let armor_id = match optional_text(node, "armorId") {
        Some(a) => a,
        None => {
            return None;
        },
    };
    let defenses = match get_unique_node(node, "defense") {
        Ok(d) => match get_defenses(d) {
            Some(x) => x,
            None => {
                return None;
            },
        },
        Err(_) => {
            return None;
        },
    };
    let risk = match get_unique_node_text(node, "grade") {
        Ok(g) => match parse_i32(g) {
            Some(v) => match RiskLevel::try_from_i32(v) {
                Ok(r) => r,
                Err(_) => RiskLevel::Zayin,
            },
            None => RiskLevel::Zayin,
        },
        Err(_) => RiskLevel::Zayin,
    };
    let max_collectable_amount = max_amount(node);
    let equip_requirements = match requirements(node) {
        Some(r) => r,
        None => {
            return None;
        },
    };
    Some(
        PartialSuit {
            id,
            name_id,
            desc_id,
            special_desc_id,
            armor_id,
            defenses,
            risk,
            equip_requirements,
            max_collectable_amount,
            image: None,
        },
    )
}

/// The ids of equipment left out of the encyclopedia: the ones used for testing, that of
/// the rabbit team, those that abnormalities give through their effects, and that of the
/// ordeals.
pub open spec fn debug_ids() -> Seq<u32> {
    seq![177777, 277777, 4, 5, 11, 3, 200, 22, 101, 100018, 100105, 100046, 100036, 1021, 1022, 100041, 1200001]
}

/// Whether a piece of equipment is left out of the encyclopedia.
pub fn is_debug_equipment(id: u32) -> (b: bool)
    ensures
        b == debug_ids().contains(id),
{
    let ids: [u32; 17] = [
        177777,
        277777,
        4,
        5,
        11,
        3,
        200,
        22,
        101,
        100018,
        100105,
        100046,
        100036,
        1021,
        1022,
        100041,
        1200001,
    ];
    assert(ids@ == debug_ids());
    let mut i: usize = 0;
    while i < 17
        invariant
            i <= 17,
            ids@ == debug_ids(),
            forall|k: int| 0 <= k < i ==> ids@[k] != id,
        decreases 17 - i,
    {
        if ids[i] == id {
            assert(debug_ids()[i as int] == id);
            return true;
        }
        i = i + 1;
    }
    assert(!debug_ids().contains(id)) by {
        if debug_ids().contains(id) {
            let k = choose|k: int| 0 <= k < 17 && debug_ids()[k] == id;
            assert(ids@[k] == id);
        }
    }
    false
}

} // verus!
