use vstd::prelude::*;

use crate::filters::{lowercase_spec, to_lowercase};
use crate::lc::lemma_digits_parse;
use crate::game_objects::{
    child_damage_type, damage_type_of_code, is_child_damage_word, risk_level_of, tool_type_of_word,
    try_parse_damage_type_for_children, DamageRange, DamageType, RiskLevel, Stat, StatBonus, ToolType,
};
use crate::numbers::{
    digits, is_float_literal, is_float_text, parse_i32, parse_i32_spec, parse_unsigned, parse_usize,
    u64_to_decimal,
};
use crate::reparser::{
    entries_view, entry_view, finish_encyclopedia_list, apocalypse_bird, listed_entries, ListEntry,
    PartialDontTouchMeInfo, PartialToolInfo,
};
use crate::text::{append_str, str_eq, string_of, trim, trim_spec};
use crate::xml::{
    attribute, attribute_of, descendants, find_unique_node_with_attribute, get_nodes, get_unique_node,
    find_unique_node_with_name_and_attribute, get_first_node, get_unique_node_text, tagged, text_of,
    unique_node_text, with_attribute, XmlElement,
};

verus! {

/// The only element of `node`'s subtree named `name`.
pub open spec fn unique_spec(node: XmlElement, name: Seq<char>) -> Option<XmlElement> {
    let t = tagged(descendants(node), name);
    if t.len() == 1 {
        Some(t[0])
    } else {
        None
    }
}

/// The text of the only element of `node`'s subtree named `name`.
pub open spec fn unique_text_spec(node: XmlElement, name: Seq<char>) -> Option<Seq<char>> {
    match unique_node_text(node, name) {
        Ok(t) => Some(t),
        Err(_) => None,
    }
}

/// A text read as an `i32`.
pub open spec fn int_of(t: Option<Seq<char>>) -> Option<int> {
    match t {
        Some(x) => parse_i32_spec(x),
        None => None,
    }
}

/// A text that reads as an `f64`, kept as text.
pub open spec fn float_of(t: Option<Seq<char>>) -> Option<Seq<char>> {
    match t {
        Some(x) => if is_float_text(x) {
            Some(x)
        } else {
            None
        },
        None => None,
    }
}

/// The risk level written as a number in a text.
pub open spec fn risk_of(t: Option<Seq<char>>) -> Option<RiskLevel> {
    match int_of(t) {
        Some(v) => if i32::MIN <= v <= i32::MAX {
            risk_level_of(v as i32)
        } else {
            None
        },
        None => None,
    }
}

/// The only element of `node`'s subtree named `name`.
fn unique<'a>(node: &'a XmlElement, name: &str) -> (r: Option<&'a XmlElement>)
    ensures
        match r {
            Some(x) => unique_spec(*node, name@) == Some(*x),
            None => unique_spec(*node, name@) is None,
        },
{
    match get_unique_node(node, name) {
        Ok(x) => Some(x),
        Err(_) => None,
    }
}

/// The text of the only element of `node`'s subtree named `name`.
fn unique_text<'a>(node: &'a XmlElement, name: &str) -> (r: Option<&'a str>)
    ensures
        match r {
            Some(x) => unique_text_spec(*node, name@) == Some(x@),
            None => unique_text_spec(*node, name@) is None,
        },
{
    match get_unique_node_text(node, name) {
        Ok(x) => Some(x),
        Err(_) => None,
    }
}

/// Reads an optional text as an `i32`.
fn int_text(t: Option<&str>) -> (r: Option<i32>)
    ensures
        match r {
            Some(v) => int_of(str_opt(t)) == Some(v as int),
            None => int_of(str_opt(t)) is None,
        },
{
    match t {
        Some(x) => parse_i32(x),
        None => None,
    }
}

/// An optional text as plain values.
pub open spec fn str_opt(t: Option<&str>) -> Option<Seq<char>> {
    match t {
        Some(x) => Some(x@),
        None => None,
    }
}

/// Keeps an optional text that reads as an `f64`.
fn float_text(t: Option<&str>) -> (r: Option<String>)
    ensures
        match r {
            Some(v) => float_of(str_opt(t)) == Some(v@),
            None => float_of(str_opt(t)) is None,
        },
{
    match t {
        Some(x) => if is_float_literal(x) {
            Some(x.to_owned())
        } else {
            None
        },
        None => None,
    }
}

/// Reads a risk level written as a number.
fn risk_text(t: Option<&str>) -> (r: Option<RiskLevel>)
    ensures
        r == risk_of(str_opt(t)),
{
    match int_text(t) {
        Some(v) => match RiskLevel::try_from_i32(v) {
            Ok(l) => Some(l),
            Err(_) => None,
        },
        None => None,
    }
}

/// The resistances of an entity to the four damage types, as the texts of the numbers the
/// game's files give; each reads as an `f64`.
#[derive(Debug)]
pub struct DefenseTexts {
    pub red: String,
    pub white: String,
    pub black: String,
    pub pale: String,
}

/// Resistances as plain values: red, white, black, pale.
pub open spec fn defense_view(d: DefenseTexts) -> (Seq<char>, Seq<char>, Seq<char>, Seq<char>) {
    (d.red@, d.white@, d.black@, d.pale@)
}

/// The resistance to one damage type under a defense element: the text of the first
/// element whose `type` is the type's code, when that text reads as an `f64`.
pub open spec fn defense_val_spec(node: XmlElement, code: Seq<char>) -> Option<Seq<char>> {
    let t = with_attribute(descendants(node), "type"@, code);
    if t.len() > 0 {
        float_of(text_of(t[0]))
    } else {
        None
    }
}

/// The four resistances under a defense element; none where one of them cannot be read.
pub open spec fn defenses_spec(node: XmlElement) -> Option<(Seq<char>, Seq<char>, Seq<char>, Seq<char>)> {
    match (
        defense_val_spec(node, "R"@),
        defense_val_spec(node, "W"@),
        defense_val_spec(node, "B"@),
        defense_val_spec(node, "P"@),
    ) {
        (Some(r), Some(w), Some(b), Some(p)) => Some((r, w, b, p)),
        _ => None,
    }
}

/// Reads the resistance to one damage type under a defense element; none where the game's
/// files lack it or it is not a number.
pub fn get_defense_val(defense_node: &XmlElement, str_code: &str) -> (r: Option<String>)
    ensures
        match r {
            Some(v) => defense_val_spec(*defense_node, str_code@) == Some(v@),
            None => defense_val_spec(*defense_node, str_code@) is None,
        },
{
    match find_unique_node_with_attribute(defense_node, "type", str_code) {
        Ok(x) => match &x.text {
            Some(t) => float_text(Some(t.as_str())),
            None => None,
        },
        Err(_) => None,
    }
}

/// Reads the four resistances under a defense element.
pub fn get_defenses(defense_node: &XmlElement) -> (r: Option<DefenseTexts>)
    ensures
        match r {
            Some(d) => defenses_spec(*defense_node) == Some(defense_view(d)),
            None => defenses_spec(*defense_node) is None,
        },
{
    let red = get_defense_val(defense_node, "R");
    let white = get_defense_val(defense_node, "W");
    let black = get_defense_val(defense_node, "B");
    let pale = get_defense_val(defense_node, "P");
    match (red, white, black, pale) {
        (Some(red), Some(white), Some(black), Some(pale)) => Some(DefenseTexts { red, white, black, pale }),
        _ => None,
    }
}


/// One `prob` element of a work probability list: the slot of its level, 1 to 5, and its
/// text, which reads as an `f64`.
pub open spec fn prob_entry(e: XmlElement) -> Option<(int, Seq<char>)> {
    match attribute_of(e, "level"@) {
        Some(a) => match parse_unsigned(a, usize::MAX as nat) {
            Some(l) => if 1 <= l <= 5 {
                match float_of(text_of(e)) {
                    Some(t) => Some(((l - 1) as int, t)),
                    None => None,
                }
            } else {
                None
            },
            None => None,
        },
        None => None,
    }
}

/// The five success rates that a list of `prob` elements writes, each level's last one
/// winning; a level that none writes stays unset (zero).
pub open spec fn probabilities_spec(s: Seq<XmlElement>) -> Option<Seq<Option<Seq<char>>>>
    decreases s.len(),
{
    if s.len() == 0 {
        Some(seq![None, None, None, None, None])
    } else {
        match probabilities_spec(s.drop_last()) {
            None => None,
            Some(acc) => match prob_entry(s.last()) {
                None => None,
                Some((i, t)) => Some(acc.update(i, Some(t))),
            },
        }
    }
}

/// Optional texts as plain values.
pub open spec fn opt_texts(v: Seq<Option<String>>) -> Seq<Option<Seq<char>>> {
    v.map_values(|o: Option<String>| match o {
        Some(s) => Some(s@),
        None => None,
    })
}

proof fn lemma_probabilities_len(s: Seq<XmlElement>)
    ensures
        probabilities_spec(s) matches Some(acc) ==> acc.len() == 5,
    decreases s.len(),
{
    if s.len() > 0 {
        lemma_probabilities_len(s.drop_last());
    }
}

/// Once a prefix of the list cannot be read, neither can the list.
proof fn lemma_probabilities_prefix_none(s: Seq<XmlElement>, k: int)
    requires
        0 <= k <= s.len(),
        probabilities_spec(s.take(k)) is None,
    ensures
        probabilities_spec(s) is None,
    decreases s.len() - k,
{
    if k == s.len() {
        assert(s.take(k) =~= s);
    } else {
        assert(s.take(k + 1).drop_last() =~= s.take(k));
        lemma_probabilities_prefix_none(s, k + 1);
    }
}

/// Reads the success rates of one work type, by level, from its `prob` elements; none where
/// a level or a rate cannot be read.
pub fn parse_work_probability(node: &XmlElement) -> (r: Option<Vec<Option<String>>>)
    ensures
        match r {
            Some(v) => probabilities_spec(tagged(descendants(*node), "prob"@)) == Some(opt_texts(v@)),
            None => probabilities_spec(tagged(descendants(*node), "prob"@)) is None,
        },
{
    let probs = get_nodes(node, "prob");
    let ghost all = tagged(descendants(*node), "prob"@);
    let mut slots: Vec<Option<String>> = vec![None, None, None, None, None];
    assert(probabilities_spec(all.take(0)) == Some(opt_texts(slots@))) by {
        assert(all.take(0).len() == 0);
        assert(opt_texts(slots@) =~= seq![None, None, None, None, None]);
    }
    let mut i: usize = 0;
    while i < probs.len()
        invariant
            i <= probs.len(),
            crate::xml::derefs(probs@) == all,
            all == tagged(descendants(*node), "prob"@),
            slots.len() == 5,
            probabilities_spec(all.take(i as int)) == Some(opt_texts(slots@)),
        decreases probs.len() - i,
    {
        let x = probs[i];
        let ghost t = all.take(i + 1);
        assert(t.drop_last() =~= all.take(i as int));
        assert(t.last() == *x);
        let level = match attribute(x, "level") {
            Some(a) => parse_usize(a),
            None => None,
        };
        let l: usize = match level {
            Some(l) => l,
            None => 0,
        };
        if l < 1 || l > 5 {
            proof {
                assert(prob_entry(*x) is None);
                assert(probabilities_spec(t) is None);
                lemma_probabilities_prefix_none(all, i + 1);
            }
            return None;
        }
        let index: usize = l - 1;
        let val = match &x.text {
            Some(v) => float_text(Some(v.as_str())),
            None => None,
        };
        match val {
            Some(v) => {
                let ghost before = slots@;
                let ghost text = v@;
                slots.set(index, Some(v));
                assert(opt_texts(slots@) =~= opt_texts(before).update(index as int, Some(text)));
            },
            None => {
                proof {
                    assert(prob_entry(*x) is None);
                    lemma_probabilities_prefix_none(all, i + 1);
                }
                return None;
            },
        }
        i = i + 1;
    }
    assert(all.take(all.len() as int) =~= all);
    Some(slots)
}


/// The `stat` element of an abnormality's document: the only one under its only `creature`.
pub open spec fn stat_spec(doc: XmlElement) -> Option<XmlElement> {
    match unique_spec(doc, "creature"@) {
        Some(c) => unique_spec(c, "stat"@),
        None => None,
    }
}

/// What a tool abnormality's document says: its risk level and its tool type; none where
/// the document lacks them.
pub open spec fn tool_abno_spec(doc: XmlElement) -> Option<(RiskLevel, ToolType)> {
    match stat_spec(doc) {
        Some(stat) => match (risk_of(unique_text_spec(stat, "riskLevel"@)), unique_text_spec(stat, "kitType"@)) {
            (Some(risk), Some(kit)) => match tool_type_of_word(trim_spec(lowercase_spec(kit))) {
                Some(t) => Some((risk, t)),
                None => None,
            },
            _ => None,
        },
        None => None,
    }
}

/// Reads a tool abnormality's document; its image is named by its id. None where the
/// document lacks its risk level or tool type.
pub fn parse_tool_abno(id: u32, doc: &XmlElement) -> (r: Option<PartialToolInfo>)
    ensures
        match r {
            Some(info) => tool_abno_spec(*doc) == Some((info.risk, info.tool_type)) && (info.image matches Some(
                image,
            ) && image@ == digits(id as nat, 10)),
            None => tool_abno_spec(*doc) is None,
        },
{
    let creature = match unique(doc, "creature") {
        Some(c) => c,
        None => {
            return None;
        },
    };
    let stat = match unique(creature, "stat") {
        Some(c) => c,
        None => {
            return None;
        },
    };
    let risk = match risk_text(unique_text(stat, "riskLevel")) {
        Some(r) => r,
        None => {
            return None;
        },
    };
    let tool_type = match unique_text(stat, "kitType") {
        Some(k) => match ToolType::try_from_str(k) {
            Ok(t) => t,
            Err(_) => {
                return None;
            },
        },
        None => {
            return None;
        },
    };
    Some(PartialToolInfo { risk, tool_type, image: Some(u64_to_decimal(id as u64)) })
}

/// An entity that an abnormality becomes or sends out when it breaches: its id, its health,
/// its speed (the text of an `f64`), its resistances, the damage it deals and its risk level.
#[derive(Debug)]
pub struct PartialBreachingEntity {
    pub id: String,
    pub hp: i32,
    pub speed: String,
    pub defenses: DefenseTexts,
    pub damage_type: DamageType,
    pub risk_level: RiskLevel,
}

/// A breaching entity as plain values.
pub type EntityView = (Seq<char>, int, Seq<char>, (Seq<char>, Seq<char>, Seq<char>, Seq<char>), DamageType, RiskLevel);

/// A breaching entity as plain values.
pub open spec fn entity_view(e: PartialBreachingEntity) -> EntityView {
    (e.id@, e.hp as int, e.speed@, defense_view(e.defenses), e.damage_type, e.risk_level)
}

/// The damage type written as a one-letter code in an attribute.
pub open spec fn damage_code_of(a: Option<Seq<char>>) -> Option<DamageType> {
    match a {
        Some(t) => damage_type_of_code(lowercase_spec(t)),
        None => None,
    }
}

/// What the document of one of the eggs of the apocalypse bird says of it, under the id
/// `id`; none where the document lacks a part.
pub open spec fn egg_spec(id: Seq<char>, doc: XmlElement) -> Option<EntityView> {
    match unique_spec(doc, "creature"@) {
        None => None,
        Some(creature) => match unique_spec(creature, "stat"@) {
            None => None,
            Some(stat) => {
                let hp = int_of(unique_text_spec(stat, "hp"@));
                let speed = float_of(unique_text_spec(stat, "speed"@));
                let defenses = match unique_spec(stat, "defense"@) {
                    Some(d) => defenses_spec(d),
                    None => None,
                };
                let damage = match unique_spec(creature, "workDamage"@) {
                    Some(w) => damage_code_of(attribute_of(w, "type"@)),
                    None => None,
                };
                let risk = risk_of(unique_text_spec(creature, "riskLevel"@));
                match (hp, speed, defenses, damage, risk) {
                    (Some(hp), Some(speed), Some(defenses), Some(damage), Some(risk)) => Some(
                        (id, hp, speed, defenses, damage, risk),
                    ),
                    _ => None,
                }
            },
        },
    }
}

/// Reads the damage type written as a one-letter code in an attribute.
fn damage_code(a: Option<&str>) -> (r: Option<DamageType>)
    ensures
        r == damage_code_of(str_opt(a)),
{
    match a {
        Some(t) => match DamageType::try_from_str(t) {
            Ok(d) => Some(d),
            Err(_) => None,
        },
        None => None,
    }
}

/// Reads the document of one of the eggs of the apocalypse bird; none where it lacks a part.
pub fn parse_egg(id: &str, doc: &XmlElement) -> (r: Option<PartialBreachingEntity>)
    ensures
        match r {
            Some(e) => egg_spec(id@, *doc) == Some(entity_view(e)),
            None => egg_spec(id@, *doc) is None,
        },
{
    let creature = match unique(doc, "creature") {
        Some(c) => c,
        None => {
            return None;
        },
    };
    let stat = match unique(creature, "stat") {
        Some(c) => c,
        None => {
            return None;
        },
    };
    let hp = int_text(unique_text(stat, "hp"));
    let speed = float_text(unique_text(stat, "speed"));
    let defenses = match unique(stat, "defense") {
        Some(d) => get_defenses(d),
        None => None,
    };
    let damage_type = match unique(creature, "workDamage") {
        Some(w) => damage_code(attribute(w, "type")),
        None => None,
    };
    let risk_level = risk_text(unique_text(creature, "riskLevel"));
    match (hp, speed, defenses, damage_type, risk_level) {
        (Some(hp), Some(speed), Some(defenses), Some(damage_type), Some(risk_level)) => Some(
            PartialBreachingEntity { id: id.to_owned(), hp, speed, defenses, damage_type, risk_level },
        ),
        _ => None,
    }
}


/// The damage dealt by the apostle of the `n`-th defense element of the apostles' document.
pub open spec fn apostle_damage(n: nat) -> DamageType {
    if n == 1 {
        DamageType::Red
    } else if n == 2 {
        DamageType::Pale
    } else if n == 3 {
        DamageType::White
    } else {
        DamageType::Black
    }
}

/// The id under which the apostles' document is filed.
pub open spec fn apostle_stat() -> Seq<char> {
    "DeathAngelApostle_stat"@
}

/// The entity that one defense element of a child's document describes. The apostles are
/// told apart by the element's `id`, 1 to 4, which also fixes their damage; every other
/// child deals the damage of its `attackType`, which it must have.
pub open spec fn child_entity_spec(
    id: Seq<char>,
    d: XmlElement,
    damage: Option<DamageType>,
    hp: int,
    speed: Seq<char>,
    risk: RiskLevel,
) -> Option<EntityView> {
    match defenses_spec(d) {
        None => None,
        Some(defenses) => if id == apostle_stat() {
            match attribute_of(d, "id"@) {
                Some(a) => match parse_unsigned(a, usize::MAX as nat) {
                    Some(n) => if 1 <= n <= 4 {
                        Some((id + seq!['-'] + digits(n, 10), hp, speed, defenses, apostle_damage(n), risk))
                    } else {
                        None
                    },
                    None => None,
                },
                None => None,
            }
        } else {
            match damage {
                Some(t) => Some((id, hp, speed, defenses, t, risk)),
                None => None,
            }
        },
    }
}

/// WhiteNight's apostles are told apart by the `id` of their defense element, 1 to 4, and
/// deal Red, Pale, White and Black damage respectively, whatever else their document says;
/// each is filed under the apostles' id, a dash and that number.
pub proof fn lemma_apostle_damage_by_defense_id(
    n: nat,
    d: XmlElement,
    damage: Option<DamageType>,
    hp: int,
    speed: Seq<char>,
    risk: RiskLevel,
)
    requires
        1 <= n <= 4,
        attribute_of(d, "id"@) == Some(digits(n, 10)),
        defenses_spec(d) is Some,
    ensures
        child_entity_spec(apostle_stat(), d, damage, hp, speed, risk) is Some,
        child_entity_spec(apostle_stat(), d, damage, hp, speed, risk)->Some_0.0 == apostle_stat() + seq!['-'] + digits(n, 10),
        n == 1 ==> child_entity_spec(apostle_stat(), d, damage, hp, speed, risk)->Some_0.4 == DamageType::Red,
        n == 2 ==> child_entity_spec(apostle_stat(), d, damage, hp, speed, risk)->Some_0.4 == DamageType::Pale,
        n == 3 ==> child_entity_spec(apostle_stat(), d, damage, hp, speed, risk)->Some_0.4 == DamageType::White,
        n == 4 ==> child_entity_spec(apostle_stat(), d, damage, hp, speed, risk)->Some_0.4 == DamageType::Black,
{
    lemma_digits_parse(n, usize::MAX as nat);
}

/// The entities of a child's defense elements, in order; none where one cannot be read.
pub open spec fn child_entities_spec(
    id: Seq<char>,
    ds: Seq<XmlElement>,
    damage: Option<DamageType>,
    hp: int,
    speed: Seq<char>,
    risk: RiskLevel,
) -> Option<Seq<EntityView>>
    decreases ds.len(),
{
    if ds.len() == 0 {
        Some(Seq::empty())
    } else {
        match (child_entities_spec(id, ds.drop_last(), damage, hp, speed, risk), child_entity_spec(
            id,
            ds.last(),
            damage,
            hp,
            speed,
            risk,
        )) {
            (Some(es), Some(e)) => Some(es.push(e)),
            _ => None,
        }
    }
}

/// The damage type of a child's `attackType`: none where it has none or it is `unknown`;
/// the outer none where the word is not one the game uses.
pub open spec fn child_damage_spec(t: Option<Seq<char>>) -> Option<Option<DamageType>> {
    match t {
        None => Some(None),
        Some(w) => if is_child_damage_word(trim_spec(lowercase_spec(w))) {
            Some(child_damage_type(trim_spec(lowercase_spec(w))))
        } else {
            None
        },
    }
}

/// What the document of an abnormality's children says of them, filed under `id`: one entity
/// per defense element of its stats, sharing its health, speed and risk level; none where
/// the document lacks a part.
pub open spec fn child_abno_spec(id: Seq<char>, doc: XmlElement) -> Option<Seq<EntityView>> {
    match unique_spec(doc, "creature"@) {
        None => None,
        Some(creature) => match unique_spec(creature, "stat"@) {
            None => None,
            Some(stat) => match (
                int_of(unique_text_spec(stat, "hp"@)),
                float_of(unique_text_spec(stat, "speed"@)),
                child_damage_spec(unique_text_spec(creature, "attackType"@)),
                risk_of(unique_text_spec(creature, "riskLevel"@)),
            ) {
                (Some(hp), Some(speed), Some(damage), Some(risk)) => child_entities_spec(
                    id,
                    tagged(descendants(stat), "defense"@),
                    damage,
                    hp,
                    speed,
                    risk,
                ),
                _ => None,
            },
        },
    }
}

/// Breaching entities as plain values.
pub open spec fn entities_view(v: Seq<PartialBreachingEntity>) -> Seq<EntityView> {
    v.map_values(|e: PartialBreachingEntity| entity_view(e))
}

proof fn lemma_child_entities_prefix_none(
    id: Seq<char>,
    ds: Seq<XmlElement>,
    k: int,
    damage: Option<DamageType>,
    hp: int,
    speed: Seq<char>,
    risk: RiskLevel,
)
    requires
        0 <= k <= ds.len(),
        child_entities_spec(id, ds.take(k), damage, hp, speed, risk) is None,
    ensures
        child_entities_spec(id, ds, damage, hp, speed, risk) is None,
    decreases ds.len() - k,
{
    if k == ds.len() {
        assert(ds.take(k) =~= ds);
    } else {
        assert(ds.take(k + 1).drop_last() =~= ds.take(k));
        lemma_child_entities_prefix_none(id, ds, k + 1, damage, hp, speed, risk);
    }
}

/// Reads the entity of one defense element of a child's document.
fn child_entity(
    id: &str,
    d: &XmlElement,
    damage: Option<DamageType>,
    hp: i32,
    speed: &String,
    risk: RiskLevel,
) -> (r: Option<PartialBreachingEntity>)
    ensures
        match r {
            Some(e) => child_entity_spec(id@, *d, damage, hp as int, speed@, risk) == Some(entity_view(e)),
            None => child_entity_spec(id@, *d, damage, hp as int, speed@, risk) is None,
        },
{
    let defenses = match get_defenses(d) {
        Some(x) => x,
        None => {
            return None;
        },
    };
    if str_eq(id, "DeathAngelApostle_stat") {
        let n: usize = match attribute(d, "id") {
            Some(a) => match parse_usize(a) {
                Some(n) => n,
                None => {
                    return None;
                },
            },
            None => {
                return None;
            },
        };
        if n < 1 || n > 4 {
            return None;
        }
        let damage_type = if n == 1 {
            DamageType::Red
        } else if n == 2 {
            DamageType::Pale
        } else if n == 3 {
            DamageType::White
        } else {
            DamageType::Black
        };
        let mut name: Vec<char> = Vec::new();
        append_str(&mut name, id);
        name.push('-');
        append_str(&mut name, u64_to_decimal(n as u64).as_str());
        Some(PartialBreachingEntity {
            id: string_of(&name),
            hp,
            speed: speed.clone(),
            defenses,
            damage_type,
            risk_level: risk,
        })
    } else {
        match damage {
            Some(t) => Some(PartialBreachingEntity {
                id: id.to_owned(),
                hp,
                speed: speed.clone(),
                defenses,
                damage_type: t,
                risk_level: risk,
            }),
            None => None,
        }
    }
}

/// Reads the document of an abnormality's children, filed under `id`: one entity per
/// defense element; none where the document lacks a part.
pub fn parse_child_abno(id: &str, doc: &XmlElement) -> (r: Option<Vec<PartialBreachingEntity>>)
    ensures
        match r {
            Some(v) => child_abno_spec(id@, *doc) == Some(entities_view(v@)),
            None => child_abno_spec(id@, *doc) is None,
        },
{
    let creature = match unique(doc, "creature") {
        Some(c) => c,
        None => {
            return None;
        },
    };
    let stat = match unique(creature, "stat") {
        Some(c) => c,
        None => {
            return None;
        },
    };
    let hp = match int_text(unique_text(stat, "hp")) {
        Some(h) => h,
        None => {
            return None;
        },
    };
    let speed = match float_text(unique_text(stat, "speed")) {
        Some(s) => s,
        None => {
            return None;
        },
    };
    let damage = match unique_text(creature, "attackType") {
        None => None,
        Some(w) => match try_parse_damage_type_for_children(w) {
            Some(d) => d,
            None => {
                return None;
            },
        },
    };
    let risk = match risk_text(unique_text(creature, "riskLevel")) {
        Some(r) => r,
        None => {
            return None;
        },
    };
    let defense_nodes = get_nodes(stat, "defense");
    let ghost ds = tagged(descendants(*stat), "defense"@);
    let mut out: Vec<PartialBreachingEntity> = Vec::new();
    let mut i: usize = 0;
    assert(entities_view(out@) =~= Seq::<EntityView>::empty());
    while i < defense_nodes.len()
        invariant
            i <= defense_nodes.len(),
            crate::xml::derefs(defense_nodes@) == ds,
            ds == tagged(descendants(*stat), "defense"@),
            child_abno_spec(id@, *doc) == child_entities_spec(id@, ds, damage, hp as int, speed@, risk),
            child_entities_spec(id@, ds.take(i as int), damage, hp as int, speed@, risk) == Some(entities_view(out@)),
        decreases defense_nodes.len() - i,
    {
        let ghost t = ds.take(i + 1);
        assert(t.drop_last() =~= ds.take(i as int));
        assert(t.last() == *defense_nodes@[i as int]);
        match child_entity(id, defense_nodes[i], damage, hp, &speed, risk) {
            Some(e) => {
                let ghost before = out@;
                out.push(e);
                assert(entities_view(out@) =~= entities_view(before).push(entity_view(e)));
            },
            None => {
                proof {
                    lemma_child_entities_prefix_none(id@, ds, i + 1, damage, hp as int, speed@, risk);
                }
                return None;
            },
        }
        i = i + 1;
    }
    assert(ds.take(ds.len() as int) =~= ds);
    Some(out)
}


/// The success rates of the four kinds of work, each by level (five levels), as texts of
/// `f64`s; an unset level is zero.
#[derive(Debug)]
pub struct WorkProbabilityTexts {
    pub instinct: Vec<Option<String>>,
    pub insight: Vec<Option<String>>,
    pub attachment: Vec<Option<String>>,
    pub repression: Vec<Option<String>>,
}

/// What it takes to obtain a piece of equipment: a cost in energy, or a chance (the text of
/// an `f64`).
#[derive(Debug)]
pub enum ObtainEquipmentNumber {
    Cost(i32),
    Probability(String),
}

/// A piece of equipment that an abnormality gives: its id, the observation level it needs
/// and what obtaining it takes.
#[derive(Debug)]
pub struct PartialRelatedEquipmentInfo {
    pub id: u32,
    pub observation_level: i32,
    pub obtain_number: ObtainEquipmentNumber,
}

/// What the game's files say of an abnormality that is worked with.
#[derive(Debug)]
pub struct PartialNormalInfo {
    pub risk: RiskLevel,
    pub work_probabilities: WorkProbabilityTexts,
    pub qliphoth_counter: Option<i32>,
    pub work_damage_type: DamageType,
    pub work_damage_range: DamageRange,
    pub work_happiness_ranges: [i32; 3],
    pub work_speed: String,
    pub work_cooldown: i32,
    pub max_probability_reduction_count: i32,
    pub is_breachable: bool,
    pub defenses: Option<DefenseTexts>,
    pub observation_level_bonuses: [StatBonus; 4],
    pub related_equipment: Vec<PartialRelatedEquipmentInfo>,
    pub breaching_entities: Vec<PartialBreachingEntity>,
    pub image: Option<String>,
}

/// The success rates of the work type coded `code`: those of the first `workProb` element
/// of that type.
pub open spec fn work_prob_spec(stat: XmlElement, code: Seq<char>) -> Option<Seq<Option<Seq<char>>>> {
    let t = with_attribute(tagged(descendants(stat), "workProb"@), "type"@, code);
    if t.len() > 0 {
        probabilities_spec(tagged(descendants(t[0]), "prob"@))
    } else {
        None
    }
}

/// Reads the success rates of one work type.
fn work_prob(stat: &XmlElement, code: &str) -> (r: Option<Vec<Option<String>>>)
    ensures
        match r {
            Some(v) => work_prob_spec(*stat, code@) == Some(opt_texts(v@)),
            None => work_prob_spec(*stat, code@) is None,
        },
{
    match find_unique_node_with_name_and_attribute(stat, "workProb", "type", code) {
        Ok(x) => parse_work_probability(x),
        Err(_) => None,
    }
}

/// The damage of work: its type and its range, from the only `workDamage` element.
pub open spec fn work_damage_spec(stat: XmlElement) -> Option<(DamageType, int, int)> {
    match unique_spec(stat, "workDamage"@) {
        Some(w) => match (damage_code_of(attribute_of(w, "type"@)), int_of(attribute_of(w, "min"@)), int_of(
            attribute_of(w, "max"@),
        )) {
            (Some(t), Some(lo), Some(hi)) => Some((t, lo, hi)),
            _ => None,
        },
        None => None,
    }
}

/// The numbers that a list of elements holds as text; none where one does not read as an
/// `i32`.
pub open spec fn int_texts(s: Seq<XmlElement>) -> Option<Seq<int>>
    decreases s.len(),
{
    if s.len() == 0 {
        Some(Seq::empty())
    } else {
        match (int_texts(s.drop_last()), int_of(text_of(s.last()))) {
            (Some(v), Some(x)) => Some(v.push(x)),
            _ => None,
        }
    }
}

/// The bounds of the mood ranges: the one to three `cube` values of the only
/// `feelingStateCubeBounds` element, the last repeated to make three.
pub open spec fn happiness_spec(stat: XmlElement) -> Option<Seq<int>> {
    match unique_spec(stat, "feelingStateCubeBounds"@) {
        Some(f) => match int_texts(tagged(descendants(f), "cube"@)) {
            Some(v) => if 1 <= v.len() <= 3 {
                Some(seq![v[0], v[if v.len() > 1 { 1int } else { v.len() - 1 }], v[v.len() - 1]])
            } else {
                None
            },
            None => None,
        },
        None => None,
    }
}

/// Reads the numbers that a list of elements holds as text.
fn read_int_texts(v: &Vec<&XmlElement>) -> (r: Option<Vec<i32>>)
    ensures
        match r {
            Some(x) => int_texts(crate::xml::derefs(v@)) == Some(x@.map_values(|i: i32| i as int)),
            None => int_texts(crate::xml::derefs(v@)) is None,
        },
{
    let ghost all = crate::xml::derefs(v@);
    let mut out: Vec<i32> = Vec::new();
    let mut i: usize = 0;
    assert(out@.map_values(|i: i32| i as int) =~= Seq::<int>::empty());
    while i < v.len()
        invariant
            i <= v.len(),
            all == crate::xml::derefs(v@),
            int_texts(all.take(i as int)) == Some(out@.map_values(|i: i32| i as int)),
        decreases v.len() - i,
    {
        let ghost t = all.take(i + 1);
        assert(t.drop_last() =~= all.take(i as int));
        assert(t.last() == *v@[i as int]);
        let x = match &v[i].text {
            Some(t) => parse_i32(t.as_str()),
            None => None,
        };
        match x {
            Some(x) => {
                let ghost before = out@;
                out.push(x);
                assert(out@.map_values(|i: i32| i as int) =~= before.map_values(|i: i32| i as int).push(x as int));
            },
            None => {
                proof {
                    lemma_int_texts_prefix_none(all, i + 1);
                }
                return None;
            },
        }
        i = i + 1;
    }
    assert(all.take(all.len() as int) =~= all);
    Some(out)
}

proof fn lemma_int_texts_prefix_none(s: Seq<XmlElement>, k: int)
    requires
        0 <= k <= s.len(),
        int_texts(s.take(k)) is None,
    ensures
        int_texts(s) is None,
    decreases s.len() - k,
{
    if k == s.len() {
        assert(s.take(k) =~= s);
    } else {
        assert(s.take(k + 1).drop_last() =~= s.take(k));
        lemma_int_texts_prefix_none(s, k + 1);
    }
}

/// Reads the bounds of the mood ranges.
fn happiness(stat: &XmlElement) -> (r: Option<[i32; 3]>)
    ensures
        match r {
            Some(a) => happiness_spec(*stat) == Some(a@.map_values(|i: i32| i as int)),
            None => happiness_spec(*stat) is None,
        },
{
    let f = match unique(stat, "feelingStateCubeBounds") {
        Some(f) => f,
        None => {
            return None;
        },
    };
    let cubes = get_nodes(f, "cube");
    let v = match read_int_texts(&cubes) {
        Some(v) => v,
        None => {
            return None;
        },
    };
    if v.len() < 1 || v.len() > 3 {
        return None;
    }
    let last = v[v.len() - 1];
    let second = if v.len() > 1 { v[1] } else { last };
    let a: [i32; 3] = [v[0], second, last];
    assert(a@.map_values(|i: i32| i as int) =~= seq![v@[0] as int, second as int, last as int]);
    Some(a)
}

/// The observation bonus of one `observeBonus` element: success rate for `prob`, work speed
/// for `speed` (in any case, with any surrounding whitespace), and the number it holds.
pub open spec fn bonus_spec(e: XmlElement) -> Option<(Stat, int)> {
    match attribute_of(e, "type"@) {
        Some(t) => {
            let w = trim_spec(lowercase_spec(t));
            let stat = if w == "speed"@ {
                Some(Stat::WorkSpeed)
            } else if w == "prob"@ {
                Some(Stat::SuccessRate)
            } else {
                None
            };
            match (stat, int_of(text_of(e))) {
                (Some(s), Some(v)) => Some((s, v)),
                _ => None,
            }
        },
        None => None,
    }
}

/// The bonuses of a list of `observeBonus` elements; none where one cannot be read.
pub open spec fn bonuses_spec(s: Seq<XmlElement>) -> Option<Seq<(Stat, int)>>
    decreases s.len(),
{
    if s.len() == 0 {
        Some(Seq::empty())
    } else {
        match (bonuses_spec(s.drop_last()), bonus_spec(s.last())) {
            (Some(v), Some(b)) => Some(v.push(b)),
            _ => None,
        }
    }
}

/// The four observation bonuses of an abnormality; none unless there are exactly four.
pub open spec fn observation_spec(stat: XmlElement) -> Option<Seq<(Stat, int)>> {
    match bonuses_spec(tagged(descendants(stat), "observeBonus"@)) {
        Some(v) => if v.len() == 4 {
            Some(v)
        } else {
            None
        },
        None => None,
    }
}

/// A bonus as plain values.
pub open spec fn bonus_view(b: StatBonus) -> (Stat, int) {
    (b.0, b.1 as int)
}

/// Reads one observation bonus.
fn bonus(e: &XmlElement) -> (r: Option<StatBonus>)
    ensures
        match r {
            Some(b) => bonus_spec(*e) == Some(bonus_view(b)),
            None => bonus_spec(*e) is None,
        },
{
    let t = match attribute(e, "type") {
        Some(t) => t,
        None => {
            return None;
        },
    };
    let lower = to_lowercase(t);
    let w = trim(lower.as_str());
    let stat = if str_eq(w.as_str(), "speed") {
        Stat::WorkSpeed
    } else if str_eq(w.as_str(), "prob") {
        Stat::SuccessRate
    } else {
        return None;
    };
    let v = match &e.text {
        Some(x) => parse_i32(x.as_str()),
        None => None,
    };
    match v {
        Some(v) => Some(StatBonus(stat, v)),
        None => None,
    }
}

proof fn lemma_bonuses_prefix_none(s: Seq<XmlElement>, k: int)
    requires
        0 <= k <= s.len(),
        bonuses_spec(s.take(k)) is None,
    ensures
        bonuses_spec(s) is None,
    decreases s.len() - k,
{
    if k == s.len() {
        assert(s.take(k) =~= s);
    } else {
        assert(s.take(k + 1).drop_last() =~= s.take(k));
        lemma_bonuses_prefix_none(s, k + 1);
    }
}

/// Reads the four observation bonuses of an abnormality.
fn observation_bonuses(stat: &XmlElement) -> (r: Option<[StatBonus; 4]>)
    ensures
        match r {
            Some(a) => observation_spec(*stat) == Some(a@.map_values(|b: StatBonus| bonus_view(b))),
            None => observation_spec(*stat) is None,
        },
{
    let nodes = get_nodes(stat, "observeBonus");
    let ghost all = tagged(descendants(*stat), "observeBonus"@);
    let mut out: Vec<StatBonus> = Vec::new();
    let mut i: usize = 0;
    assert(out@.map_values(|b: StatBonus| bonus_view(b)) =~= Seq::<(Stat, int)>::empty());
    while i < nodes.len()
        invariant
            i <= nodes.len(),
            crate::xml::derefs(nodes@) == all,
            all == tagged(descendants(*stat), "observeBonus"@),
            bonuses_spec(all.take(i as int)) == Some(out@.map_values(|b: StatBonus| bonus_view(b))),
        decreases nodes.len() - i,
    {
        let ghost t = all.take(i + 1);
        assert(t.drop_last() =~= all.take(i as int));
        assert(t.last() == *nodes@[i as int]);
        match bonus(nodes[i]) {
            Some(b) => {
                let ghost before = out@;
                out.push(b);
                assert(out@.map_values(|b: StatBonus| bonus_view(b)) =~= before.map_values(|b: StatBonus| bonus_view(b)).push(bonus_view(b)));
            },
            None => {
                proof {
                    lemma_bonuses_prefix_none(all, i + 1);
                }
                return None;
            },
        }
        i = i + 1;
    }
    assert(all.take(all.len() as int) =~= all);
    if out.len() != 4 {
        return None;
    }
    let a: [StatBonus; 4] = [out[0], out[1], out[2], out[3]];
    assert(a@.map_values(|b: StatBonus| bonus_view(b)) =~= out@.map_values(|b: StatBonus| bonus_view(b)));
    Some(a)
}

/// What obtaining a piece of equipment takes, as plain values: a cost, or else a chance.
pub type ObtainView = (Option<int>, Option<Seq<char>>);

/// A related piece of equipment as plain values.
pub open spec fn equipment_view(e: PartialRelatedEquipmentInfo) -> (int, int, ObtainView) {
    (e.id as int, e.observation_level as int, match e.obtain_number {
        ObtainEquipmentNumber::Cost(c) => (Some(c as int), None),
        ObtainEquipmentNumber::Probability(p) => (None, Some(p@)),
    })
}

/// One `equipment` element: the id and level it names, and its cost where that reads as an
/// `i32`, else its chance, which must read as an `f64`.
pub open spec fn equipment_spec(e: XmlElement) -> Option<(int, int, ObtainView)> {
    let id = match attribute_of(e, "equipId"@) {
        Some(a) => parse_unsigned(a, u32::MAX as nat),
        None => None,
    };
    let level = int_of(attribute_of(e, "level"@));
    let obtain: Option<ObtainView> = match int_of(attribute_of(e, "cost"@)) {
        Some(c) => Some((Some(c), None)),
        None => match float_of(attribute_of(e, "prob"@)) {
            Some(p) => Some((None, Some(p))),
            None => None,
        },
    };
    match (id, level, obtain) {
        (Some(id), Some(level), Some(o)) => Some((id as int, level, o)),
        _ => None,
    }
}

/// The equipment of a list of `equipment` elements; none where one cannot be read.
pub open spec fn equipments_spec(s: Seq<XmlElement>) -> Option<Seq<(int, int, ObtainView)>>
    decreases s.len(),
{
    if s.len() == 0 {
        Some(Seq::empty())
    } else {
        match (equipments_spec(s.drop_last()), equipment_spec(s.last())) {
            (Some(v), Some(b)) => Some(v.push(b)),
            _ => None,
        }
    }
}

/// Reads one related piece of equipment.
fn equipment(e: &XmlElement) -> (r: Option<PartialRelatedEquipmentInfo>)
    ensures
        match r {
            Some(x) => equipment_spec(*e) == Some(equipment_view(x)),
            None => equipment_spec(*e) is None,
        },
{
    let id = match attribute(e, "equipId") {
        Some(a) => crate::numbers::parse_u32(a),
        None => None,
    };
    let level = int_text(attribute(e, "level"));
    let obtain = match int_text(attribute(e, "cost")) {
        Some(c) => Some(ObtainEquipmentNumber::Cost(c)),
        None => match float_text(attribute(e, "prob")) {
            Some(p) => Some(ObtainEquipmentNumber::Probability(p)),
            None => None,
        },
    };
    match (id, level, obtain) {
        (Some(id), Some(observation_level), Some(obtain_number)) => Some(
            PartialRelatedEquipmentInfo { id, observation_level, obtain_number },
        ),
        _ => None,
    }
}

proof fn lemma_equipments_prefix_none(s: Seq<XmlElement>, k: int)
    requires
        0 <= k <= s.len(),
        equipments_spec(s.take(k)) is None,
    ensures
        equipments_spec(s) is None,
    decreases s.len() - k,
{
    if k == s.len() {
        assert(s.take(k) =~= s);
    } else {
        assert(s.take(k + 1).drop_last() =~= s.take(k));
        lemma_equipments_prefix_none(s, k + 1);
    }
}

/// Reads the equipment that an abnormality gives.
fn related_equipment(stat: &XmlElement) -> (r: Option<Vec<PartialRelatedEquipmentInfo>>)
    ensures
        match r {
            Some(v) => equipments_spec(tagged(descendants(*stat), "equipment"@)) == Some(
                v@.map_values(|x: PartialRelatedEquipmentInfo| equipment_view(x)),
            ),
            None => equipments_spec(tagged(descendants(*stat), "equipment"@)) is None,
        },
{
    let nodes = get_nodes(stat, "equipment");
    let ghost all = tagged(descendants(*stat), "equipment"@);
    let mut out: Vec<PartialRelatedEquipmentInfo> = Vec::new();
    let mut i: usize = 0;
    assert(out@.map_values(|x: PartialRelatedEquipmentInfo| equipment_view(x)) =~= Seq::<(int, int, ObtainView)>::empty());
    while i < nodes.len()
        invariant
            i <= nodes.len(),
            crate::xml::derefs(nodes@) == all,
            all == tagged(descendants(*stat), "equipment"@),
            equipments_spec(all.take(i as int)) == Some(out@.map_values(|x: PartialRelatedEquipmentInfo| equipment_view(x))),
        decreases nodes.len() - i,
    {
        let ghost t = all.take(i + 1);
        assert(t.drop_last() =~= all.take(i as int));
        assert(t.last() == *nodes@[i as int]);
        match equipment(nodes[i]) {
            Some(x) => {
                let ghost before = out@;
                let ghost xv = equipment_view(x);
                out.push(x);
                assert(out@.map_values(|x: PartialRelatedEquipmentInfo| equipment_view(x)) =~= before.map_values(
                    |x: PartialRelatedEquipmentInfo| equipment_view(x),
                ).push(xv));
            },
            None => {
                proof {
                    lemma_equipments_prefix_none(all, i + 1);
                }
                return None;
            },
        }
        i = i + 1;
    }
    assert(all.take(all.len() as int) =~= all);
    Some(out)
}


/// Whether an abnormality breaches: unless its `escapeable` text says otherwise; a missing
/// text counts as yes.
pub open spec fn breachable_spec(stat: XmlElement) -> bool {
    !(unique_text_spec(stat, "escapeable"@) matches Some(t) && trim_spec(lowercase_spec(t)) != "true"@)
}

/// The resistances of a breaching abnormality, where it has a `defense` element; the outer
/// none where that element cannot be read.
pub open spec fn defenses_field_spec(stat: XmlElement) -> Option<Option<(Seq<char>, Seq<char>, Seq<char>, Seq<char>)>> {
    if breachable_spec(stat) {
        match unique_spec(stat, "defense"@) {
            Some(d) => match defenses_spec(d) {
                Some(x) => Some(Some(x)),
                None => None,
            },
            None => Some(None),
        }
    } else {
        Some(None)
    }
}

/// Optional resistances as plain values.
pub open spec fn opt_defense_view(d: Option<DefenseTexts>) -> Option<(Seq<char>, Seq<char>, Seq<char>, Seq<char>)> {
    match d {
        Some(x) => Some(defense_view(x)),
        None => None,
    }
}

/// How often the success rate can drop: the `maxProbReductionCounter` where it is a number
/// no smaller than zero, else the risk level's number.
pub open spec fn max_reduction_spec(stat: XmlElement) -> Option<int> {
    match int_of(unique_text_spec(stat, "maxProbReductionCounter"@)) {
        Some(x) => if x >= 0 {
            Some(x)
        } else {
            int_of(unique_text_spec(stat, "riskLevel"@))
        },
        None => int_of(unique_text_spec(stat, "riskLevel"@)),
    }
}

/// The damage an abnormality deals when it breaches: that of the first `damage` element of
/// its `specialDamage`, where there is one with a known code, else the damage of work.
pub open spec fn breaching_damage_spec(stat: XmlElement, work: DamageType) -> DamageType {
    match unique_spec(stat, "specialDamage"@) {
        Some(sd) => {
            let t = tagged(descendants(sd), "damage"@);
            if t.len() > 0 {
                match damage_code_of(attribute_of(t[0], "type"@)) {
                    Some(d) => d,
                    None => work,
                }
            } else {
                work
            }
        },
        None => work,
    }
}

/// The entity that an abnormality itself becomes when it breaches: there is one where its
/// stats give its health, its speed and its resistances.
pub open spec fn self_entity_spec(
    id: u32,
    stat: XmlElement,
    defenses: Option<(Seq<char>, Seq<char>, Seq<char>, Seq<char>)>,
    work: DamageType,
    risk: RiskLevel,
) -> Seq<EntityView> {
    match (int_of(unique_text_spec(stat, "hp"@)), float_of(unique_text_spec(stat, "speed"@)), defenses) {
        (Some(hp), Some(speed), Some(d)) => seq![
            (digits(id as nat, 10), hp, speed, d, breaching_damage_spec(stat, work), risk),
        ],
        _ => Seq::empty(),
    }
}

/// The document that an abnormality's children are filed in, named by its `child` text;
/// the apocalypse bird's, though named by the small, long and big birds, is its own entry.
pub open spec fn child_stat_spec(doc: XmlElement) -> Option<Seq<char>> {
    match unique_spec(doc, "creature"@) {
        Some(c) => match unique_text_spec(c, "child"@) {
            Some(t) => if t != "BossBird_stat"@ {
                Some(t)
            } else {
                None
            },
            None => None,
        },
        None => None,
    }
}

/// The entities of an abnormality's children, read from the document that it names.
pub open spec fn children_spec(doc: XmlElement, child: Option<XmlElement>) -> Option<Seq<EntityView>> {
    match child_stat_spec(doc) {
        None => Some(Seq::empty()),
        Some(c) => match child {
            Some(cd) => child_abno_spec(c, cd),
            None => None,
        },
    }
}

/// The id of the apocalypse bird.
pub open spec fn apocalypse_bird_id() -> u32 {
    100038
}

/// The documents of the gateway and the eggs of the apocalypse bird.
pub open spec fn egg_stat_names() -> Seq<Seq<char>> {
    seq!["BossGateWay_stat"@, "BigEgg_stat"@, "LongEgg_stat"@, "SmallEgg_stat"@]
}

/// The entities of the gateway and the eggs, for the apocalypse bird; none for any other.
pub open spec fn eggs_spec(id: u32, eggs: Seq<XmlElement>) -> Option<Seq<EntityView>> {
    if id == apocalypse_bird_id() {
        if eggs.len() == 4 {
            let n = egg_stat_names();
            match (egg_spec(n[0], eggs[0]), egg_spec(n[1], eggs[1]), egg_spec(n[2], eggs[2]), egg_spec(n[3], eggs[3])) {
                (Some(a), Some(b), Some(c), Some(d)) => Some(seq![a, b, c, d]),
                _ => None,
            }
        } else {
            None
        }
    } else {
        Some(Seq::empty())
    }
}

/// An optional reference as an optional value.
pub open spec fn opt_deref(o: Option<&XmlElement>) -> Option<XmlElement> {
    match o {
        Some(x) => Some(*x),
        None => None,
    }
}

/// Whether the documents of an abnormality that is worked with hold every part that the
/// encyclopedia needs.
pub open spec fn normal_abno_readable(id: u32, doc: XmlElement, child: Option<XmlElement>, eggs: Seq<XmlElement>) -> bool {
    stat_spec(doc) matches Some(stat) && {
        &&& risk_of(unique_text_spec(stat, "riskLevel"@)) is Some
        &&& work_prob_spec(stat, "R"@) is Some
        &&& work_prob_spec(stat, "W"@) is Some
        &&& work_prob_spec(stat, "B"@) is Some
        &&& work_prob_spec(stat, "P"@) is Some
        &&& work_damage_spec(stat) is Some
        &&& happiness_spec(stat) is Some
        &&& float_of(unique_text_spec(stat, "workSpeed"@)) is Some
        &&& int_of(unique_text_spec(stat, "workCooltime"@)) is Some
        &&& max_reduction_spec(stat) is Some
        &&& defenses_field_spec(stat) is Some
        &&& observation_spec(stat) is Some
        &&& equipments_spec(tagged(descendants(stat), "equipment"@)) is Some
        &&& children_spec(doc, child) is Some
        &&& eggs_spec(id, eggs) is Some
    }
}

/// Whether `info` is what the documents of an abnormality say of it.
pub open spec fn normal_abno_holds(
    info: PartialNormalInfo,
    id: u32,
    doc: XmlElement,
    child: Option<XmlElement>,
    eggs: Seq<XmlElement>,
) -> bool {
    stat_spec(doc) matches Some(stat) && {
        &&& risk_of(unique_text_spec(stat, "riskLevel"@)) == Some(info.risk)
        &&& work_prob_spec(stat, "R"@) == Some(opt_texts(info.work_probabilities.instinct@))
        &&& work_prob_spec(stat, "W"@) == Some(opt_texts(info.work_probabilities.insight@))
        &&& work_prob_spec(stat, "B"@) == Some(opt_texts(info.work_probabilities.attachment@))
        &&& work_prob_spec(stat, "P"@) == Some(opt_texts(info.work_probabilities.repression@))
        &&& int_of(unique_text_spec(stat, "qliphoth"@)) == (match info.qliphoth_counter {
            Some(q) => Some(q as int),
            None => None,
        })
        &&& work_damage_spec(stat) == Some(
            (info.work_damage_type, info.work_damage_range.0 as int, info.work_damage_range.1 as int),
        )
        &&& happiness_spec(stat) == Some(info.work_happiness_ranges@.map_values(|i: i32| i as int))
        &&& float_of(unique_text_spec(stat, "workSpeed"@)) == Some(info.work_speed@)
        &&& int_of(unique_text_spec(stat, "workCooltime"@)) == Some(info.work_cooldown as int)
        &&& max_reduction_spec(stat) == Some(info.max_probability_reduction_count as int)
        &&& info.is_breachable == breachable_spec(stat)
        &&& defenses_field_spec(stat) == Some(opt_defense_view(info.defenses))
        &&& observation_spec(stat) == Some(info.observation_level_bonuses@.map_values(|b: StatBonus| bonus_view(b)))
        &&& equipments_spec(tagged(descendants(stat), "equipment"@)) == Some(
            info.related_equipment@.map_values(|x: PartialRelatedEquipmentInfo| equipment_view(x)),
        )
        &&& children_spec(doc, child) matches Some(children) && eggs_spec(id, eggs) matches Some(egg_entities)
            && entities_view(info.breaching_entities@) == self_entity_spec(
            id,
            stat,
            opt_defense_view(info.defenses),
            info.work_damage_type,
            info.risk,
        ) + children + egg_entities
        &&& info.image matches Some(image) && image@ == digits(id as nat, 10)
    }
}

/// The document that an abnormality's children are filed in, where it names one (among the
/// creature documents' children).
pub fn child_stat_file(doc: &XmlElement) -> (r: Option<String>)
    ensures
        match r {
            Some(c) => child_stat_spec(*doc) == Some(c@),
            None => child_stat_spec(*doc) is None,
        },
{
    match unique(doc, "creature") {
        Some(c) => match unique_text(c, "child") {
            Some(t) => if str_eq(t, "BossBird_stat") {
                None
            } else {
                Some(t.to_owned())
            },
            None => None,
        },
        None => None,
    }
}

/// The documents, among the creature documents, of the gateway and the eggs that the
/// apocalypse bird sends out; the other abnormalities have none.
pub fn egg_stat_files(id: u32) -> (r: Vec<&'static str>)
    ensures
        id == apocalypse_bird_id() ==> r@.map_values(|s: &str| s@) == egg_stat_names(),
        id != apocalypse_bird_id() ==> r.len() == 0,
{
    let mut r: Vec<&'static str> = Vec::new();
    if id == 100038 {
        r.push("BossGateWay_stat");
        r.push("BigEgg_stat");
        r.push("LongEgg_stat");
        r.push("SmallEgg_stat");
        assert(r@.map_values(|s: &str| s@) =~= egg_stat_names());
    }
    r
}

/// Reads the entities of the gateway and the eggs of the apocalypse bird.
fn egg_entities(id: u32, eggs: &[XmlElement]) -> (r: Option<Vec<PartialBreachingEntity>>)
    ensures
        match r {
            Some(v) => eggs_spec(id, eggs@) == Some(entities_view(v@)),
            None => eggs_spec(id, eggs@) is None,
        },
{
    let mut out: Vec<PartialBreachingEntity> = Vec::new();
    if id != 100038 {
        assert(entities_view(out@) =~= Seq::<EntityView>::empty());
        return Some(out);
    }
    if eggs.len() != 4 {
        return None;
    }
    let a = parse_egg("BossGateWay_stat", &eggs[0]);
    let b = parse_egg("BigEgg_stat", &eggs[1]);
    let c = parse_egg("LongEgg_stat", &eggs[2]);
    let d = parse_egg("SmallEgg_stat", &eggs[3]);
    match (a, b, c, d) {
        (Some(a), Some(b), Some(c), Some(d)) => {
            let ghost v = seq![entity_view(a), entity_view(b), entity_view(c), entity_view(d)];
            out.push(a);
            out.push(b);
            out.push(c);
            out.push(d);
            assert(entities_view(out@) =~= v);
            Some(out)
        },
        _ => None,
    }
}

/// Reads the damage an abnormality deals when it breaches.
fn breaching_damage(stat: &XmlElement, work: DamageType) -> (r: DamageType)
    ensures
        r == breaching_damage_spec(*stat, work),
{
    match unique(stat, "specialDamage") {
        Some(sd) => match get_first_node(sd, "damage") {
            Some(d) => match damage_code(attribute(d, "type")) {
                Some(t) => t,
                None => work,
            },
            None => work,
        },
        None => work,
    }
}

/// Copies resistances.
fn copy_defenses(d: &DefenseTexts) -> (r: DefenseTexts)
    ensures
        defense_view(r) == defense_view(*d),
{
    DefenseTexts { red: d.red.clone(), white: d.white.clone(), black: d.black.clone(), pale: d.pale.clone() }
}

/// Reads what the documents of an abnormality that is worked with say of it: its own
/// document, the document of its children where it names one, and, for the apocalypse
/// bird, those of its gateway and eggs. None where a part that the encyclopedia needs is
/// missing or malformed.
pub fn parse_normal_abno(id: u32, doc: &XmlElement, child: Option<&XmlElement>, eggs: &[XmlElement]) -> (r: Option<PartialNormalInfo>)
    ensures
        match r {
            Some(info) => normal_abno_readable(id, *doc, opt_deref(child), eggs@) && normal_abno_holds(
                info,
                id,
                *doc,
                opt_deref(child),
                eggs@,
            ),
            None => !normal_abno_readable(id, *doc, opt_deref(child), eggs@),
        },
{
    let creature = match unique(doc, "creature") {
        Some(c) => c,
        None => {
            return None;
        },
    };
    let stat = match unique(creature, "stat") {
        Some(c) => c,
        None => {
            return None;
        },
    };
    let risk = match risk_text(unique_text(stat, "riskLevel")) {
        Some(r) => r,
        None => {
            return None;
        },
    };
    let instinct = match work_prob(stat, "R") {
        Some(v) => v,
        None => {
            return None;
        },
    };
    let insight = match work_prob(stat, "W") {
        Some(v) => v,
        None => {
            return None;
        },
    };
    let attachment = match work_prob(stat, "B") {
        Some(v) => v,
        None => {
            return None;
        },
    };
    let repression = match work_prob(stat, "P") {
        Some(v) => v,
        None => {
            return None;
        },
    };
    let qliphoth_counter = int_text(unique_text(stat, "qliphoth"));
    let work_damage_node = match unique(stat, "workDamage") {
        Some(w) => w,
        None => {
            return None;
        },
    };
    let work_damage_type = match damage_code(attribute(work_damage_node, "type")) {
        Some(t) => t,
        None => {
            return None;
        },
    };
    let min = match int_text(attribute(work_damage_node, "min")) {
        Some(x) => x,
        None => {
            return None;
        },
    };
    let max = match int_text(attribute(work_damage_node, "max")) {
        Some(x) => x,
        None => {
            return None;
        },
    };
    let work_happiness_ranges = match happiness(stat) {
        Some(h) => h,
        None => {
            return None;
        },
    };
    let work_speed = match float_text(unique_text(stat, "workSpeed")) {
        Some(w) => w,
        None => {
            return None;
        },
    };
    let work_cooldown = match int_text(unique_text(stat, "workCooltime")) {
        Some(w) => w,
        None => {
            return None;
        },
    };
    let risk_number = match int_text(unique_text(stat, "riskLevel")) {
        Some(x) => x,
        None => {
            return None;
        },
    };
    let max_probability_reduction_count = match int_text(unique_text(stat, "maxProbReductionCounter")) {
        Some(x) => if x >= 0 {
            x
        } else {
            risk_number
        },
        None => risk_number,
    };
    let is_breachable = match unique_text(stat, "escapeable") {
        Some(t) => {
            let lower = to_lowercase(t);
            let w = trim(lower.as_str());
            str_eq(w.as_str(), "true")
        },
        None => true,
    };
    let defenses = if is_breachable {
        match unique(stat, "defense") {
            Some(d) => match get_defenses(d) {
                Some(x) => Some(x),
                None => {
                    return None;
                },
            },
            None => None,
        }
    } else {
        None
    };
    let observation_level_bonuses = match observation_bonuses(stat) {
        Some(b) => b,
        None => {
            return None;
        },
    };
    let related_equipment = match related_equipment(stat) {
        Some(e) => e,
        None => {
            return None;
        },
    };
    let hp = int_text(unique_text(stat, "hp"));
    let speed = float_text(unique_text(stat, "speed"));
    let breaching_damage_type = breaching_damage(stat, work_damage_type);
    let mut breaching_entities: Vec<PartialBreachingEntity> = Vec::new();
    match (hp, speed, &defenses) {
        (Some(hp), Some(speed), Some(d)) => {
            breaching_entities.push(
                PartialBreachingEntity {
                    id: u64_to_decimal(id as u64),
                    hp,
                    speed,
                    defenses: copy_defenses(d),
                    damage_type: breaching_damage_type,
                    risk_level: risk,
                },
            );
        },
        _ => {},
    }
    let ghost own = entities_view(breaching_entities@);
    assert(own =~= self_entity_spec(id, *stat, opt_defense_view(defenses), work_damage_type, risk));
    let child_name = child_stat_file(doc);
    let mut children: Vec<PartialBreachingEntity> = match child_name {
        None => Vec::new(),
        Some(c) => match child {
            Some(cd) => match parse_child_abno(c.as_str(), cd) {
                Some(v) => v,
                None => {
                    return None;
                },
            },
            None => {
                return None;
            },
        },
    };
    assert(children_spec(*doc, opt_deref(child)) == Some(entities_view(children@)));
    let mut egg_list = match egg_entities(id, eggs) {
        Some(v) => v,
        None => {
            return None;
        },
    };
    let ghost children_view = entities_view(children@);
    let ghost eggs_view = entities_view(egg_list@);
    breaching_entities.append(&mut children);
    breaching_entities.append(&mut egg_list);
    assert(entities_view(breaching_entities@) =~= own + children_view + eggs_view);
    Some(
        PartialNormalInfo {
            risk,
            work_probabilities: WorkProbabilityTexts { instinct, insight, attachment, repression },
            qliphoth_counter,
            work_damage_type,
            work_damage_range: DamageRange(min, max),
            work_happiness_ranges,
            work_speed,
            work_cooldown,
            max_probability_reduction_count,
            is_breachable,
            defenses,
            observation_level_bonuses,
            related_equipment,
            breaching_entities,
            image: Some(u64_to_decimal(id as u64)),
        },
    )
}


/// What the game's files say of an encyclopedia entry, by its kind.
#[derive(Debug)]
pub enum PartialEncyclopediaInfo {
    Normal(PartialNormalInfo),
    Tool(PartialToolInfo),
    DontTouchMe(PartialDontTouchMeInfo),
}

/// The id of the abnormality that must not be touched.
pub open spec fn dont_touch_me_id() -> u32 {
    100024
}

/// Whether an abnormality is a tool: its stats' only `workType` reads `kit`.
pub open spec fn is_tool_spec(doc: XmlElement) -> bool {
    match stat_spec(doc) {
        Some(stat) => match unique_spec(stat, "workType"@) {
            Some(w) => text_of(w) == Some("kit"@),
            None => false,
        },
        None => false,
    }
}

/// Whether an abnormality's documents hold every part that its kind of entry needs.
pub open spec fn encyclopedia_readable(id: u32, doc: XmlElement, child: Option<XmlElement>, eggs: Seq<XmlElement>) -> bool {
    unique_spec(doc, "creature"@) is Some && (id == dont_touch_me_id() || (if is_tool_spec(doc) {
        tool_abno_spec(doc) is Some
    } else {
        normal_abno_readable(id, doc, child, eggs)
    }))
}

/// Reads an abnormality's entry from its documents: the abnormality that must not be
/// touched is a Zayin with nothing more to say; a tool is read as a tool; any other as an
/// abnormality that is worked with. None where a part that the entry needs is missing.
pub fn parse(id: u32, doc: &XmlElement, child: Option<&XmlElement>, eggs: &[XmlElement]) -> (r: Option<PartialEncyclopediaInfo>)
    ensures
        match r {
            Some(PartialEncyclopediaInfo::DontTouchMe(d)) => unique_spec(*doc, "creature"@) is Some && id
                == dont_touch_me_id() && d.risk == RiskLevel::Zayin && (d.image matches Some(image) && image@
                == digits(id as nat, 10)),
            Some(PartialEncyclopediaInfo::Tool(t)) => unique_spec(*doc, "creature"@) is Some && id != dont_touch_me_id()
                && is_tool_spec(*doc) && tool_abno_spec(*doc) == Some((t.risk, t.tool_type)) && (t.image matches Some(
                image,
            ) && image@ == digits(id as nat, 10)),
            Some(PartialEncyclopediaInfo::Normal(n)) => unique_spec(*doc, "creature"@) is Some && id
                != dont_touch_me_id() && !is_tool_spec(*doc) && normal_abno_readable(
                id,
                *doc,
                opt_deref(child),
                eggs@,
            ) && normal_abno_holds(n, id, *doc, opt_deref(child), eggs@),
            None => !encyclopedia_readable(id, *doc, opt_deref(child), eggs@),
        },
{
    let creature = match unique(doc, "creature") {
        Some(c) => c,
        None => {
            return None;
        },
    };
    let is_tool = match unique(creature, "stat") {
        Some(stat) => match unique(stat, "workType") {
            Some(w) => match &w.text {
                Some(t) => str_eq(t.as_str(), "kit"),
                None => false,
            },
            None => false,
        },
        None => false,
    };
    if id == 100024 {
        Some(PartialEncyclopediaInfo::DontTouchMe(PartialDontTouchMeInfo { risk: RiskLevel::Zayin, image: Some(u64_to_decimal(id as u64)) }))
    } else if is_tool {
        match parse_tool_abno(id, doc) {
            Some(t) => Some(PartialEncyclopediaInfo::Tool(t)),
            None => None,
        }
    } else {
        match parse_normal_abno(id, doc, child, eggs) {
            Some(n) => Some(PartialEncyclopediaInfo::Normal(n)),
            None => None,
        }
    }
}


/// An abnormality whose stats have no `escapeable` text breaches.
pub proof fn lemma_missing_escapeable_breaches(stat: XmlElement)
    requires
        unique_text_spec(stat, "escapeable"@) is None,
    ensures
        breachable_spec(stat),
{
}

/// A breaching abnormality whose stats give its health, its speed and a defense element is
/// its own first breaching entity, under its id.
pub proof fn lemma_breaching_abnormality_is_its_first_entity(
    info: PartialNormalInfo,
    id: u32,
    doc: XmlElement,
    child: Option<XmlElement>,
    eggs: Seq<XmlElement>,
)
    requires
        normal_abno_holds(info, id, doc, child, eggs),
        info.is_breachable,
        stat_spec(doc) matches Some(stat) && {
            &&& int_of(unique_text_spec(stat, "hp"@)) is Some
            &&& float_of(unique_text_spec(stat, "speed"@)) is Some
            &&& unique_spec(stat, "defense"@) is Some
        },
    ensures
        info.breaching_entities.len() >= 1,
        info.breaching_entities@[0].id@ == digits(id as nat, 10),
        info.breaching_entities@[0].risk_level == info.risk,
{
    let stat = stat_spec(doc)->Some_0;
    assert(info.defenses is Some);
    let own = self_entity_spec(id, stat, opt_defense_view(info.defenses), info.work_damage_type, info.risk);
    assert(own.len() == 1);
    let children = children_spec(doc, child)->Some_0;
    let egg_list = eggs_spec(id, eggs)->Some_0;
    let all = entities_view(info.breaching_entities@);
    assert(all == own + children + egg_list);
    assert(all[0] == own[0]);
}


/// One `creature` element of the game's list: its `src` attribute, its `id` attribute as a
/// `u32`, and the text of its only `stat`.
pub open spec fn list_entry_spec(e: XmlElement) -> Option<(Seq<char>, u32, Seq<char>)> {
    let id = match attribute_of(e, "id"@) {
        Some(a) => parse_unsigned(a, u32::MAX as nat),
        None => None,
    };
    match (attribute_of(e, "src"@), id, unique_text_spec(e, "stat"@)) {
        (Some(src), Some(id), Some(stat)) => Some((src, id as u32, stat)),
        _ => None,
    }
}

/// The entries of a list of `creature` elements; none where one cannot be read.
pub open spec fn list_entries_spec(s: Seq<XmlElement>) -> Option<Seq<(Seq<char>, u32, Seq<char>)>>
    decreases s.len(),
{
    if s.len() == 0 {
        Some(Seq::empty())
    } else {
        match (list_entries_spec(s.drop_last()), list_entry_spec(s.last())) {
            (Some(v), Some(e)) => Some(v.push(e)),
            _ => None,
        }
    }
}

/// The encyclopedia's abnormalities as the game's list gives them: the `creature` elements
/// of its only `creature_list`, then Apocalypse Bird, without the entries that are not
/// kept; none where the list lacks a part.
pub open spec fn encyclopedia_list_spec(doc: XmlElement) -> Option<Seq<(Seq<char>, u32, Seq<char>)>> {
    match unique_spec(doc, "creature_list"@) {
        Some(l) => match list_entries_spec(tagged(descendants(l), "creature"@)) {
            Some(v) => Some(listed_entries(v.push(apocalypse_bird()))),
            None => None,
        },
        None => None,
    }
}

proof fn lemma_list_entries_prefix_none(s: Seq<XmlElement>, k: int)
    requires
        0 <= k <= s.len(),
        list_entries_spec(s.take(k)) is None,
    ensures
        list_entries_spec(s) is None,
    decreases s.len() - k,
{
    if k == s.len() {
        assert(s.take(k) =~= s);
    } else {
        assert(s.take(k + 1).drop_last() =~= s.take(k));
        lemma_list_entries_prefix_none(s, k + 1);
    }
}

/// Reads one entry of the game's list.
fn list_entry(e: &XmlElement) -> (r: Option<ListEntry>)
    ensures
        match r {
            Some(x) => list_entry_spec(*e) == Some(entry_view(x)),
            None => list_entry_spec(*e) is None,
        },
{
    let src = attribute(e, "src");
    let id = match attribute(e, "id") {
        Some(a) => crate::numbers::parse_u32(a),
        None => None,
    };
    let stat = unique_text(e, "stat");
    match (src, id, stat) {
        (Some(src), Some(id), Some(stat)) => Some(ListEntry { src: src.to_owned(), id, stat: stat.to_owned() }),
        _ => None,
    }
}

/// Reads the encyclopedia's abnormalities from the game's list of them.
pub fn load_encyclopedia_list(doc: &XmlElement) -> (r: Option<Vec<ListEntry>>)
    ensures
        match r {
            Some(v) => encyclopedia_list_spec(*doc) == Some(entries_view(v@)),
            None => encyclopedia_list_spec(*doc) is None,
        },
{
    let list = match unique(doc, "creature_list") {
        Some(l) => l,
        None => {
            return None;
        },
    };
    let nodes = get_nodes(list, "creature");
    let ghost all = tagged(descendants(*list), "creature"@);
    let mut out: Vec<ListEntry> = Vec::new();
    let mut i: usize = 0;
    assert(entries_view(out@) =~= Seq::<(Seq<char>, u32, Seq<char>)>::empty());
    while i < nodes.len()
        invariant
            i <= nodes.len(),
            crate::xml::derefs(nodes@) == all,
            all == tagged(descendants(*list), "creature"@),
            unique_spec(*doc, "creature_list"@) == Some(*list),
            list_entries_spec(all.take(i as int)) == Some(entries_view(out@)),
        decreases nodes.len() - i,
    {
        let ghost t = all.take(i + 1);
        assert(t.drop_last() =~= all.take(i as int));
        assert(t.last() == *nodes@[i as int]);
        match list_entry(nodes[i]) {
            Some(x) => {
                let ghost before = out@;
                let ghost xv = entry_view(x);
                out.push(x);
                assert(entries_view(out@) =~= entries_view(before).push(xv));
            },
            None => {
                proof {
                    lemma_list_entries_prefix_none(all, i + 1);
                }
                return None;
            },
        }
        i = i + 1;
    }
    assert(all.take(all.len() as int) =~= all);
    Some(finish_encyclopedia_list(out))
}

} // verus!
