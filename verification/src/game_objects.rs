use vstd::prelude::*;

use crate::binahbot::DiscordEmbedColors;
use crate::filters::{lowercase_spec, to_lowercase};
use crate::lobocorp::Locale;
use crate::text::{str_eq, trim, trim_spec};

verus! {

/// The colour of damage.
#[derive(Debug, Clone, Copy, PartialEq, Eq, Structural)]
pub enum DamageType {
    Red,
    White,
    Black,
    Pale,
}

/// The name a DamageType is displayed by.
pub open spec fn damage_type_name(x: DamageType) -> Seq<char> {
    match x {
        DamageType::Red => "Red"@,
        DamageType::White => "White"@,
        DamageType::Black => "Black"@,
        DamageType::Pale => "Pale"@,
    }
}

impl DamageType {
    /// The name this value is displayed by.
    pub fn to_string(&self) -> (s: String)
        ensures
            s@ == damage_type_name(*self),
    {
        match self {
            DamageType::Red => "Red".to_owned(),
            DamageType::White => "White".to_owned(),
            DamageType::Black => "Black".to_owned(),
            DamageType::Pale => "Pale".to_owned(),
        }
    }
}

/// How a defense value reads.
#[derive(Debug, Clone, Copy, PartialEq, Eq, Structural)]
pub enum ResistanceCategories {
    Absorb,
    Immune,
    Resistant,
    Endured,
    Normal,
    Weak,
    Vulnerable,
}

/// The name a ResistanceCategories is displayed by.
pub open spec fn resistance_categories_name(x: ResistanceCategories) -> Seq<char> {
    match x {
        ResistanceCategories::Absorb => "Absorb"@,
        ResistanceCategories::Immune => "Immune"@,
        ResistanceCategories::Resistant => "Resistant"@,
        ResistanceCategories::Endured => "Endured"@,
        ResistanceCategories::Normal => "Normal"@,
        ResistanceCategories::Weak => "Weak"@,
        ResistanceCategories::Vulnerable => "Vulnerable"@,
    }
}

impl ResistanceCategories {
    /// The name this value is displayed by.
    pub fn to_string(&self) -> (s: String)
        ensures
            s@ == resistance_categories_name(*self),
    {
        match self {
            ResistanceCategories::Absorb => "Absorb".to_owned(),
            ResistanceCategories::Immune => "Immune".to_owned(),
            ResistanceCategories::Resistant => "Resistant".to_owned(),
            ResistanceCategories::Endured => "Endured".to_owned(),
            ResistanceCategories::Normal => "Normal".to_owned(),
            ResistanceCategories::Weak => "Weak".to_owned(),
            ResistanceCategories::Vulnerable => "Vulnerable".to_owned(),
        }
    }
}

/// The risk level of an abnormality or its equipment.
#[derive(Debug, Clone, Copy, PartialEq, Eq, Structural)]
pub enum RiskLevel {
    Zayin,
    Teth,
    He,
    Waw,
    Aleph,
}

/// The name a RiskLevel is displayed by.
pub open spec fn risk_level_name(x: RiskLevel) -> Seq<char> {
    match x {
        RiskLevel::Zayin => "Zayin"@,
        RiskLevel::Teth => "Teth"@,
        RiskLevel::He => "He"@,
        RiskLevel::Waw => "Waw"@,
        RiskLevel::Aleph => "Aleph"@,
    }
}

impl RiskLevel {
    /// The name this value is displayed by.
    pub fn to_string(&self) -> (s: String)
        ensures
            s@ == risk_level_name(*self),
    {
        match self {
            RiskLevel::Zayin => "Zayin".to_owned(),
            RiskLevel::Teth => "Teth".to_owned(),
            RiskLevel::He => "He".to_owned(),
            RiskLevel::Waw => "Waw".to_owned(),
            RiskLevel::Aleph => "Aleph".to_owned(),
        }
    }
}

/// An agent's stat.
#[derive(Debug, Clone, Copy, PartialEq, Eq, Structural)]
pub enum Stat {
    Hp,
    Sanity,
    MovementSpeed,
    AttackSpeed,
    SuccessRate,
    WorkSpeed,
}

/// The name a Stat is displayed by.
pub open spec fn stat_name(x: Stat) -> Seq<char> {
    match x {
        Stat::Hp => "Hp"@,
        Stat::Sanity => "Sanity"@,
        Stat::MovementSpeed => "MovementSpeed"@,
        Stat::AttackSpeed => "AttackSpeed"@,
        Stat::SuccessRate => "SuccessRate"@,
        Stat::WorkSpeed => "WorkSpeed"@,
    }
}

impl Stat {
    /// The name this value is displayed by.
    pub fn to_string(&self) -> (s: String)
        ensures
            s@ == stat_name(*self),
    {
        match self {
            Stat::Hp => "Hp".to_owned(),
            Stat::Sanity => "Sanity".to_owned(),
            Stat::MovementSpeed => "MovementSpeed".to_owned(),
            Stat::AttackSpeed => "AttackSpeed".to_owned(),
            Stat::SuccessRate => "SuccessRate".to_owned(),
            Stat::WorkSpeed => "WorkSpeed".to_owned(),
        }
    }
}

/// How far a weapon reaches.
#[derive(Debug, Clone, Copy, PartialEq, Eq, Structural)]
pub enum WeaponRangeCategories {
    VeryLong,
    Long,
    Medium,
    Short,
    VeryShort,
}

/// The name a WeaponRangeCategories is displayed by.
pub open spec fn weapon_range_categories_name(x: WeaponRangeCategories) -> Seq<char> {
    match x {
        WeaponRangeCategories::VeryLong => "VeryLong"@,
        WeaponRangeCategories::Long => "Long"@,
        WeaponRangeCategories::Medium => "Medium"@,
        WeaponRangeCategories::Short => "Short"@,
        WeaponRangeCategories::VeryShort => "VeryShort"@,
    }
}

impl WeaponRangeCategories {
    /// The name this value is displayed by.
    pub fn to_string(&self) -> (s: String)
        ensures
            s@ == weapon_range_categories_name(*self),
    {
        match self {
            WeaponRangeCategories::VeryLong => "VeryLong".to_owned(),
            WeaponRangeCategories::Long => "Long".to_owned(),
            WeaponRangeCategories::Medium => "Medium".to_owned(),
            WeaponRangeCategories::Short => "Short".to_owned(),
            WeaponRangeCategories::VeryShort => "VeryShort".to_owned(),
        }
    }
}

/// What a piece of equipment requires of an agent.
#[derive(Debug, Clone, Copy, PartialEq, Eq, Structural)]
pub enum EquipRequirementKey {
    AgentLevel,
    Fortitude,
    Prudence,
    Temperance,
    Justice,
}

/// The name a EquipRequirementKey is displayed by.
pub open spec fn equip_requirement_key_name(x: EquipRequirementKey) -> Seq<char> {
    match x {
        EquipRequirementKey::AgentLevel => "AgentLevel"@,
        EquipRequirementKey::Fortitude => "Fortitude"@,
        EquipRequirementKey::Prudence => "Prudence"@,
        EquipRequirementKey::Temperance => "Temperance"@,
        EquipRequirementKey::Justice => "Justice"@,
    }
}

impl EquipRequirementKey {
    /// The name this value is displayed by.
    pub fn to_string(&self) -> (s: String)
        ensures
            s@ == equip_requirement_key_name(*self),
    {
        match self {
            EquipRequirementKey::AgentLevel => "AgentLevel".to_owned(),
            EquipRequirementKey::Fortitude => "Fortitude".to_owned(),
            EquipRequirementKey::Prudence => "Prudence".to_owned(),
            EquipRequirementKey::Temperance => "Temperance".to_owned(),
            EquipRequirementKey::Justice => "Justice".to_owned(),
        }
    }
}

/// Where a gift is worn.
#[derive(Debug, Clone, Copy, PartialEq, Eq, Structural)]
pub enum Slot {
    Brooch,
    Cheek,
    Eye,
    Face,
    Hand1,
    Hand2,
    Hat,
    Helmet,
    LeftBack,
    Mouth1,
    Mouth2,
    Neckwear,
    RightBack,
    Special,
}

/// The name a Slot is displayed by.
pub open spec fn slot_name(x: Slot) -> Seq<char> {
    match x {
        Slot::Brooch => "Brooch"@,
        Slot::Cheek => "Cheek"@,
        Slot::Eye => "Eye"@,
        Slot::Face => "Face"@,
        Slot::Hand1 => "Hand1"@,
        Slot::Hand2 => "Hand2"@,
        Slot::Hat => "Hat"@,
        Slot::Helmet => "Helmet"@,
        Slot::LeftBack => "LeftBack"@,
        Slot::Mouth1 => "Mouth1"@,
        Slot::Mouth2 => "Mouth2"@,
        Slot::Neckwear => "Neckwear"@,
        Slot::RightBack => "RightBack"@,
        Slot::Special => "Special"@,
    }
}

impl Slot {
    /// The name this value is displayed by.
    pub fn to_string(&self) -> (s: String)
        ensures
            s@ == slot_name(*self),
    {
        match self {
            Slot::Brooch => "Brooch".to_owned(),
            Slot::Cheek => "Cheek".to_owned(),
            Slot::Eye => "Eye".to_owned(),
            Slot::Face => "Face".to_owned(),
            Slot::Hand1 => "Hand1".to_owned(),
            Slot::Hand2 => "Hand2".to_owned(),
            Slot::Hat => "Hat".to_owned(),
            Slot::Helmet => "Helmet".to_owned(),
            Slot::LeftBack => "LeftBack".to_owned(),
            Slot::Mouth1 => "Mouth1".to_owned(),
            Slot::Mouth2 => "Mouth2".to_owned(),
            Slot::Neckwear => "Neckwear".to_owned(),
            Slot::RightBack => "RightBack".to_owned(),
            Slot::Special => "Special".to_owned(),
        }
    }
}

/// How fast a weapon attacks.
#[derive(Debug, Clone, Copy, PartialEq, Eq, Structural)]
pub enum WeaponAttackSpeedCategories {
    VeryFast,
    Fast,
    Normal,
    Slow,
    VerySlow,
}

/// The name a WeaponAttackSpeedCategories is displayed by.
pub open spec fn weapon_attack_speed_categories_name(x: WeaponAttackSpeedCategories) -> Seq<char> {
    match x {
        WeaponAttackSpeedCategories::VeryFast => "VeryFast"@,
        WeaponAttackSpeedCategories::Fast => "Fast"@,
        WeaponAttackSpeedCategories::Normal => "Normal"@,
        WeaponAttackSpeedCategories::Slow => "Slow"@,
        WeaponAttackSpeedCategories::VerySlow => "VerySlow"@,
    }
}

impl WeaponAttackSpeedCategories {
    /// The name this value is displayed by.
    pub fn to_string(&self) -> (s: String)
        ensures
            s@ == weapon_attack_speed_categories_name(*self),
    {
        match self {
            WeaponAttackSpeedCategories::VeryFast => "VeryFast".to_owned(),
            WeaponAttackSpeedCategories::Fast => "Fast".to_owned(),
            WeaponAttackSpeedCategories::Normal => "Normal".to_owned(),
            WeaponAttackSpeedCategories::Slow => "Slow".to_owned(),
            WeaponAttackSpeedCategories::VerySlow => "VerySlow".to_owned(),
        }
    }
}

/// The smallest and largest damage of an attack.
#[derive(Debug, Clone, Copy, PartialEq, Eq, Structural)]
pub struct DamageRange(pub i32, pub i32);

/// A bonus to a stat.
#[derive(Debug, Clone, Copy, PartialEq, Eq, Structural)]
pub struct StatBonus(pub Stat, pub i32);

/// How far a weapon reaches, in the game's units.
#[derive(Debug, Clone, Copy, PartialEq, Eq, Structural)]
pub struct WeaponRange(pub u32);

/// A requirement of a piece of equipment: a stat or the agent level, and its minimum.
#[derive(Debug, Clone, Copy, PartialEq, Eq, Structural)]
pub struct EquipRequirement(pub EquipRequirementKey, pub i32);

/// How a tool abnormality is used.
#[derive(Debug, Clone, Copy, PartialEq, Eq, Structural)]
pub enum ToolType {
    Equippable,
    SustainedUse,
    SingleUse,
}

/// An abnormality that is not worked with.
#[derive(Debug)]
pub struct DontTouchMeInfo<'a> {
    pub id: u32,
    pub risk: RiskLevel,
    pub image: &'a str,
}

/// The risk level a number stands for in the game's files.
pub open spec fn risk_level_of(v: i32) -> Option<RiskLevel> {
    match v {
        1 => Some(RiskLevel::Zayin),
        2 => Some(RiskLevel::Teth),
        3 => Some(RiskLevel::He),
        4 => Some(RiskLevel::Waw),
        5 => Some(RiskLevel::Aleph),
        _ => None,
    }
}

impl RiskLevel {
    /// The risk level numbered `value`, 1 to 5; any other number is an error.
    pub fn try_from_i32(value: i32) -> (r: Result<RiskLevel, String>)
        ensures
            match r {
                Ok(l) => risk_level_of(value) == Some(l),
                Err(e) => risk_level_of(value) is None && e@ == "invalid risk level"@,
            },
    {
        match value {
            1 => Ok(RiskLevel::Zayin),
            2 => Ok(RiskLevel::Teth),
            3 => Ok(RiskLevel::He),
            4 => Ok(RiskLevel::Waw),
            5 => Ok(RiskLevel::Aleph),
            _ => Err("invalid risk level".to_owned()),
        }
    }

    /// The colour of embeds about things of this risk level.
    pub fn color(&self) -> (c: DiscordEmbedColors)
        ensures
            c == risk_color(*self),
    {
        match self {
            RiskLevel::Zayin => DiscordEmbedColors::Zayin,
            RiskLevel::Teth => DiscordEmbedColors::Teth,
            RiskLevel::He => DiscordEmbedColors::He,
            RiskLevel::Waw => DiscordEmbedColors::Waw,
            RiskLevel::Aleph => DiscordEmbedColors::Aleph,
        }
    }
}

/// The colour of a risk level.
pub open spec fn risk_color(r: RiskLevel) -> DiscordEmbedColors {
    match r {
        RiskLevel::Zayin => DiscordEmbedColors::Zayin,
        RiskLevel::Teth => DiscordEmbedColors::Teth,
        RiskLevel::He => DiscordEmbedColors::He,
        RiskLevel::Waw => DiscordEmbedColors::Waw,
        RiskLevel::Aleph => DiscordEmbedColors::Aleph,
    }
}

/// The damage type a one-letter code stands for, read in lower case.
pub open spec fn damage_type_of_code(code: Seq<char>) -> Option<DamageType> {
    if code == "b"@ {
        Some(DamageType::Black)
    } else if code == "r"@ {
        Some(DamageType::Red)
    } else if code == "w"@ {
        Some(DamageType::White)
    } else if code == "p"@ {
        Some(DamageType::Pale)
    } else {
        None
    }
}

impl DamageType {
    /// The damage type of a one-letter code, `b`, `r`, `w` or `p` in either case.
    pub fn try_from_str(value: &str) -> (r: Result<DamageType, String>)
        ensures
            match r {
                Ok(t) => damage_type_of_code(lowercase_spec(value@)) == Some(t),
                Err(e) => damage_type_of_code(lowercase_spec(value@)) is None && e@
                    == "invalid damage type"@,
            },
    {
        let lower = to_lowercase(value);
        let l = lower.as_str();
        if str_eq(l, "b") {
            Ok(DamageType::Black)
        } else if str_eq(l, "r") {
            Ok(DamageType::Red)
        } else if str_eq(l, "w") {
            Ok(DamageType::White)
        } else if str_eq(l, "p") {
            Ok(DamageType::Pale)
        } else {
            Err("invalid damage type".to_owned())
        }
    }
}

/// The requirement a code stands for, read in lower case: a damage colour for the stat it
/// trains, or `level`.
pub open spec fn equip_requirement_of_code(code: Seq<char>) -> Option<EquipRequirementKey> {
    if code == "b"@ {
        Some(EquipRequirementKey::Temperance)
    } else if code == "r"@ {
        Some(EquipRequirementKey::Fortitude)
    } else if code == "w"@ {
        Some(EquipRequirementKey::Prudence)
    } else if code == "p"@ {
        Some(EquipRequirementKey::Justice)
    } else if code == "level"@ {
        Some(EquipRequirementKey::AgentLevel)
    } else {
        None
    }
}

impl EquipRequirementKey {
    /// The requirement of a code from the game's files, in either case.
    pub fn try_from_str(value: &str) -> (r: Result<EquipRequirementKey, String>)
        ensures
            match r {
                Ok(k) => equip_requirement_of_code(lowercase_spec(value@)) == Some(k),
                Err(e) => equip_requirement_of_code(lowercase_spec(value@)) is None && e@
                    == "invalid damage type"@,
            },
    {
        let lower = to_lowercase(value);
        let l = lower.as_str();
        if str_eq(l, "b") {
            Ok(EquipRequirementKey::Temperance)
        } else if str_eq(l, "r") {
            Ok(EquipRequirementKey::Fortitude)
        } else if str_eq(l, "w") {
            Ok(EquipRequirementKey::Prudence)
        } else if str_eq(l, "p") {
            Ok(EquipRequirementKey::Justice)
        } else if str_eq(l, "level") {
            Ok(EquipRequirementKey::AgentLevel)
        } else {
            Err("invalid damage type".to_owned())
        }
    }
}

/// The tool type a word from the game's files stands for.
pub open spec fn tool_type_of_word(word: Seq<char>) -> Option<ToolType> {
    if word == "equip"@ {
        Some(ToolType::Equippable)
    } else if word == "channel"@ {
        Some(ToolType::SustainedUse)
    } else if word == "oneshot"@ {
        Some(ToolType::SingleUse)
    } else {
        None
    }
}

impl ToolType {
    /// The tool type of a word from the game's files, in either case and with any
    /// surrounding whitespace.
    pub fn try_from_str(value: &str) -> (r: Result<ToolType, String>)
        ensures
            match r {
                Ok(t) => tool_type_of_word(trim_spec(lowercase_spec(value@))) == Some(t),
                Err(e) => tool_type_of_word(trim_spec(lowercase_spec(value@))) is None && e@
                    == "invalid tool type"@,
            },
    {
        let lower = to_lowercase(value);
        let word = trim(lower.as_str());
        let w = word.as_str();
        if str_eq(w, "equip") {
            Ok(ToolType::Equippable)
        } else if str_eq(w, "channel") {
            Ok(ToolType::SustainedUse)
        } else if str_eq(w, "oneshot") {
            Ok(ToolType::SingleUse)
        } else {
            Err("invalid tool type".to_owned())
        }
    }
}

/// The category of a weapon range.
pub open spec fn range_category(value: u32) -> WeaponRangeCategories {
    if value <= 2 {
        WeaponRangeCategories::VeryShort
    } else if value == 3 {
        WeaponRangeCategories::Short
    } else if value == 4 {
        WeaponRangeCategories::Medium
    } else if value <= 15 {
        WeaponRangeCategories::Long
    } else {
        WeaponRangeCategories::VeryLong
    }
}

impl WeaponRangeCategories {
    /// The category of a weapon range: up to 2 very short, 3 short, 4 medium, up to 15
    /// long, beyond that very long.
    pub fn from_u32(value: u32) -> (c: WeaponRangeCategories)
        ensures
            c == range_category(value),
    {
        if value <= 2 {
            WeaponRangeCategories::VeryShort
        } else if value == 3 {
            WeaponRangeCategories::Short
        } else if value == 4 {
            WeaponRangeCategories::Medium
        } else if value <= 15 {
            WeaponRangeCategories::Long
        } else {
            WeaponRangeCategories::VeryLong
        }
    }
}

/// A longer reach never falls in a shorter category.
pub proof fn lemma_range_category_monotone(a: u32, b: u32)
    requires
        a <= b,
    ensures
        range_rank(range_category(a)) <= range_rank(range_category(b)),
{
}

/// The order of the range categories, from the shortest.
pub open spec fn range_rank(c: WeaponRangeCategories) -> int {
    match c {
        WeaponRangeCategories::VeryShort => 0,
        WeaponRangeCategories::Short => 1,
        WeaponRangeCategories::Medium => 2,
        WeaponRangeCategories::Long => 3,
        WeaponRangeCategories::VeryLong => 4,
    }
}

/// A damage type as the files of child abnormalities write it, in either case and with any
/// surrounding whitespace: `unknown` is no type, and any other word is not in the files.
pub open spec fn child_damage_type(word: Seq<char>) -> Option<DamageType> {
    if word == "black"@ {
        Some(DamageType::Black)
    } else if word == "red"@ {
        Some(DamageType::Red)
    } else if word == "white"@ {
        Some(DamageType::White)
    } else {
        None
    }
}

/// The words the files of child abnormalities use for a damage type.
pub open spec fn is_child_damage_word(word: Seq<char>) -> bool {
    word == "black"@ || word == "red"@ || word == "white"@ || word == "unknown"@
}

/// Reads the damage type of a child abnormality.
pub fn parse_damage_type_for_children(s: &str) -> (r: Option<DamageType>)
    requires
        is_child_damage_word(trim_spec(lowercase_spec(s@))),
    ensures
        r == child_damage_type(trim_spec(lowercase_spec(s@))),
{
    let lower = to_lowercase(s);
    let word = trim(lower.as_str());
    let w = word.as_str();
    if str_eq(w, "black") {
        Some(DamageType::Black)
    } else if str_eq(w, "red") {
        Some(DamageType::Red)
    } else if str_eq(w, "white") {
        Some(DamageType::White)
    } else {
        None
    }
}

/// Reads the damage type of a child abnormality, or gives none when the word is not one
/// the files use.
pub fn try_parse_damage_type_for_children(s: &str) -> (r: Option<Option<DamageType>>)
    ensures
        match r {
            Some(t) => is_child_damage_word(trim_spec(lowercase_spec(s@))) && t == child_damage_type(
                trim_spec(lowercase_spec(s@)),
            ),
            None => !is_child_damage_word(trim_spec(lowercase_spec(s@))),
        },
{
    let lower = to_lowercase(s);
    let word = trim(lower.as_str());
    let w = word.as_str();
    if str_eq(w, "black") || str_eq(w, "red") || str_eq(w, "white") || str_eq(w, "unknown") {
        Some(parse_damage_type_for_children(s))
    } else {
        None
    }
}

/// The localized texts of an abnormality's encyclopedia entry.
#[derive(Debug)]
pub struct EncyclopediaInfoLocalization<'a> {
    pub id: &'a str,
    pub name: &'a str,
    pub other_names: &'a [&'a str],
    pub code: &'a str,
    pub selection_text: Option<&'a str>,
    pub managerial_guidances: &'a [&'a str],
    pub story: &'a [&'a str],
    pub breaching_entity_localizations: &'a [BreachingEntityLocalization<'a>],
    pub narration_map: &'a [(NarrationType<'a>, &'a str)],
}

/// The localized name and code of a breaching entity.
#[derive(Debug)]
pub struct BreachingEntityLocalization<'a> {
    pub id: &'a str,
    pub name: &'a str,
    pub code: Option<&'a str>,
}

/// When a narration line is shown during work.
#[derive(Debug)]
pub enum NarrationType<'a> {
    Move,
    Start,
    Death,
    Panic,
    Finish,
    Mid(i32),
    Special(&'a str),
}

/// The key of a localized text: the text's id and the language.
#[derive(Debug)]
pub struct LocalizationKey<'a>(pub &'a str, pub Locale);

} // verus!
