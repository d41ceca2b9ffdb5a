use vstd::prelude::*;

use crate::binahbot::{color_value, DiscordEmbedColors, Emojis};
use crate::lists::{bullet_list, format_to_indented_list};
use crate::numbers::{decimal, i32_to_decimal};
use crate::text::{append_str, string_of, views};

verus! {

/// The kinds of dice of a combat page, and the counter dice.
#[derive(Debug, Clone, Copy, PartialEq, Eq, Structural)]
pub enum DieType {
    Slash,
    Pierce,
    Blunt,
    Block,
    Evade,
    CSlash,
    CPierce,
    CBlunt,
    CBlock,
    CEvade,
}

/// The name of a die type, as written where no emoji is configured for it.
pub open spec fn die_type_name(d: DieType) -> Seq<char> {
    match d {
        DieType::Slash => "Slash"@,
        DieType::Pierce => "Pierce"@,
        DieType::Blunt => "Blunt"@,
        DieType::Block => "Block"@,
        DieType::Evade => "Evade"@,
        DieType::CSlash => "CSlash"@,
        DieType::CPierce => "CPierce"@,
        DieType::CBlunt => "CBlunt"@,
        DieType::CBlock => "CBlock"@,
        DieType::CEvade => "CEvade"@,
    }
}

/// The emoji configured for a die type, if any.
pub open spec fn die_emoji(d: DieType, emojis: Emojis) -> Option<String> {
    match d {
        DieType::Slash => emojis.slash,
        DieType::Pierce => emojis.pierce,
        DieType::Blunt => emojis.blunt,
        DieType::Block => emojis.block,
        DieType::Evade => emojis.evade,
        DieType::CSlash => emojis.c_slash,
        DieType::CPierce => emojis.c_pierce,
        DieType::CBlunt => emojis.c_blunt,
        DieType::CBlock => emojis.c_block,
        DieType::CEvade => emojis.c_evade,
    }
}

/// How a die type is written: its emoji, or its name where none is configured.
pub open spec fn die_text(d: DieType, emojis: Emojis) -> Seq<char> {
    match die_emoji(d, emojis) {
        Some(e) => e@,
        None => die_type_name(d),
    }
}

impl DieType {
    /// The name of the die type.
    pub fn to_string(&self) -> (s: String)
        ensures
            s@ == die_type_name(*self),
    {
        let n = match self {
            DieType::Slash => "Slash",
            DieType::Pierce => "Pierce",
            DieType::Blunt => "Blunt",
            DieType::Block => "Block",
            DieType::Evade => "Evade",
            DieType::CSlash => "CSlash",
            DieType::CPierce => "CPierce",
            DieType::CBlunt => "CBlunt",
            DieType::CBlock => "CBlock",
            DieType::CEvade => "CEvade",
        };
        n.to_string()
    }
}

/// How a die type is written in an embed: its configured emoji, or its name.
pub fn get_dietype_emoji(emojis: &Emojis, die_type: &DieType) -> (s: String)
    ensures
        s@ == die_text(*die_type, *emojis),
{
    let e = match die_type {
        DieType::Slash => &emojis.slash,
        DieType::Pierce => &emojis.pierce,
        DieType::Blunt => &emojis.blunt,
        DieType::Block => &emojis.block,
        DieType::Evade => &emojis.evade,
        DieType::CSlash => &emojis.c_slash,
        DieType::CPierce => &emojis.c_pierce,
        DieType::CBlunt => &emojis.c_blunt,
        DieType::CBlock => &emojis.c_block,
        DieType::CEvade => &emojis.c_evade,
    };
    match e {
        Some(x) => x.clone(),
        None => die_type.to_string(),
    }
}

/// The rarity of a page.
#[derive(Debug, Clone, Copy, PartialEq, Eq, Structural)]
pub enum Rarity {
    Paperback,
    Hardcover,
    Limited,
    ObjetDArt,
}

/// The name of a rarity.
pub open spec fn rarity_name(r: Rarity) -> Seq<char> {
    match r {
        Rarity::Paperback => "Paperback"@,
        Rarity::Hardcover => "Hardcover"@,
        Rarity::Limited => "Limited"@,
        Rarity::ObjetDArt => "ObjetDArt"@,
    }
}

/// The colour of the embed of a page of a rarity.
pub open spec fn rarity_color(r: Rarity) -> DiscordEmbedColors {
    match r {
        Rarity::Paperback => DiscordEmbedColors::PaperbackRarity,
        Rarity::Hardcover => DiscordEmbedColors::HardcoverRarity,
        Rarity::Limited => DiscordEmbedColors::LimitedRarity,
        Rarity::ObjetDArt => DiscordEmbedColors::ObjetDArtRarity,
    }
}

impl Rarity {
    /// The name of the rarity.
    pub fn to_string(&self) -> (s: String)
        ensures
            s@ == rarity_name(*self),
    {
        let n = match self {
            Rarity::Paperback => "Paperback",
            Rarity::Hardcover => "Hardcover",
            Rarity::Limited => "Limited",
            Rarity::ObjetDArt => "ObjetDArt",
        };
        n.to_string()
    }

    /// The colour of the embed of a page of this rarity.
    pub fn color(&self) -> (c: DiscordEmbedColors)
        ensures
            c == rarity_color(*self),
    {
        match self {
            Rarity::Paperback => DiscordEmbedColors::PaperbackRarity,
            Rarity::Hardcover => DiscordEmbedColors::HardcoverRarity,
            Rarity::Limited => DiscordEmbedColors::LimitedRarity,
            Rarity::ObjetDArt => DiscordEmbedColors::ObjetDArtRarity,
        }
    }
}

/// What a key page's embed shows of it: its id, its stats, its resistances as written, its
/// rarity, its base light and the names of its passives in the card's language.
#[derive(Debug)]
pub struct KeyPageInfo {
    pub id: String,
    pub hp: i32,
    pub stagger: i32,
    pub min_speed: i32,
    pub max_speed: i32,
    pub hp_slash: String,
    pub hp_pierce: String,
    pub hp_blunt: String,
    pub stagger_slash: String,
    pub stagger_pierce: String,
    pub stagger_blunt: String,
    pub rarity: Rarity,
    pub base_light: i32,
    pub passive_names: Vec<String>,
}

/// A field of an embed as the bot decides it: the key of its translated header, its value,
/// and whether it sits inline.
#[derive(Debug)]
pub struct PlanField {
    pub header_key: &'static str,
    pub value: String,
    pub inline: bool,
}

/// A field as plain values.
pub open spec fn plan_field_view(f: PlanField) -> (Seq<char>, Seq<char>, bool) {
    (f.header_key@, f.value@, f.inline)
}

/// Fields as plain values.
pub open spec fn plan_fields_view(fs: Seq<PlanField>) -> Seq<(Seq<char>, Seq<char>, bool)> {
    fs.map_values(|f: PlanField| plan_field_view(f))
}

/// The embed of a key page, as the bot decides it: the title, the colour, the picture, the
/// link and the fields, whose headers are translated by key.
#[derive(Debug)]
pub struct KeyPagePlan {
    pub title: String,
    pub color: i32,
    pub image_url: String,
    pub url: String,
    pub fields: Vec<PlanField>,
}

/// A line of resistances: the die type, a colon, and the resistance.
pub open spec fn resist_line(d: DieType, resist: Seq<char>, emojis: Emojis) -> Seq<char> {
    die_text(d, emojis) + seq![':', ' '] + resist
}

/// The fields of a key page's embed: its health, stagger, speed, the two lists of
/// resistances and its rarity, inline; its base light where it is not 3, on a line of its
/// own; the names of its passives where it has any.
pub open spec fn key_page_fields(p: KeyPageInfo, emojis: Emojis) -> Seq<(Seq<char>, Seq<char>, bool)> {
    key_page_stat_fields(p, emojis) + (if p.base_light != 3 {
        seq![("key_page_base_light_header"@, decimal(p.base_light as int), false)]
    } else {
        Seq::empty()
    }) + (if p.passive_names.len() > 0 {
        seq![("key_page_passives_header"@, bullet_list(views(p.passive_names@)), true)]
    } else {
        Seq::empty()
    })
}

/// The six fields every key page's embed has.
pub open spec fn key_page_stat_fields(p: KeyPageInfo, emojis: Emojis) -> Seq<(Seq<char>, Seq<char>, bool)> {
    seq![
        ("key_page_hp_header"@, decimal(p.hp as int), true),
        ("key_page_stagger_header"@, decimal(p.stagger as int), true),
        ("key_page_speed_header"@, decimal(p.min_speed as int) + seq!['-'] + decimal(p.max_speed as int), true),
        ("key_page_hp_resist_header"@, bullet_list(seq![
            resist_line(DieType::Slash, p.hp_slash@, emojis),
            resist_line(DieType::Pierce, p.hp_pierce@, emojis),
            resist_line(DieType::Blunt, p.hp_blunt@, emojis),
        ]), true),
        ("key_page_stagger_resist_header"@, bullet_list(seq![
            resist_line(DieType::CSlash, p.stagger_slash@, emojis),
            resist_line(DieType::CPierce, p.stagger_pierce@, emojis),
            resist_line(DieType::CBlunt, p.stagger_blunt@, emojis),
        ]), true),
        ("key_page_rarity_header"@, rarity_name(p.rarity), true),
    ]
}

/// The address of a page's picture in the bot's bucket.
pub open spec fn sprite_url(bucket: Seq<char>, id: Seq<char>) -> Seq<char> {
    "https://"@ + bucket + ".s3.amazonaws.com/Sprite/"@ + id + ".png"@
}

/// The address of a key page on Tiphereth.
pub open spec fn key_page_url(id: Seq<char>) -> Seq<char> {
    "https://tiphereth.zasz.su/keypages/"@ + id + "/"@
}

fn resist_text(d: DieType, resist: &String, emojis: &Emojis) -> (s: String)
    ensures
        s@ == resist_line(d, resist@, *emojis),
{
    let mut out: Vec<char> = Vec::new();
    append_str(&mut out, get_dietype_emoji(emojis, &d).as_str());
    out.push(':');
    out.push(' ');
    append_str(&mut out, resist.as_str());
    string_of(&out)
}

fn resist_list(d: [DieType; 3], r: [&String; 3], emojis: &Emojis) -> (s: String)
    ensures
        s@ == bullet_list(seq![
            resist_line(d[0], r[0]@, *emojis),
            resist_line(d[1], r[1]@, *emojis),
            resist_line(d[2], r[2]@, *emojis),
        ]),
{
    let lines = vec![resist_text(d[0], r[0], emojis), resist_text(d[1], r[1], emojis), resist_text(d[2], r[2], emojis)];
    assert(views(lines@) =~= seq![
        resist_line(d[0], r[0]@, *emojis),
        resist_line(d[1], r[1]@, *emojis),
        resist_line(d[2], r[2]@, *emojis),
    ]);
    format_to_indented_list(lines.as_slice())
}

/// Decides the embed of a key page: `title` is its name as shown (with what tells it apart
/// from pages of the same name), `bucket` the bot's bucket of pictures.
pub fn key_page_plan(page: &KeyPageInfo, title: String, emojis: &Emojis, bucket: &str) -> (plan: KeyPagePlan)
    ensures
        plan.title@ == title@,
        plan.color == color_value(rarity_color(page.rarity)),
        plan.image_url@ == sprite_url(bucket@, page.id@),
        plan.url@ == key_page_url(page.id@),
        plan_fields_view(plan.fields@) == key_page_fields(*page, *emojis),
{
    let mut speed: Vec<char> = Vec::new();
    append_str(&mut speed, i32_to_decimal(page.min_speed).as_str());
    speed.push('-');
    append_str(&mut speed, i32_to_decimal(page.max_speed).as_str());
    let hp_resists = resist_list(
        [DieType::Slash, DieType::Pierce, DieType::Blunt],
        [&page.hp_slash, &page.hp_pierce, &page.hp_blunt],
        emojis,
    );
    let stagger_resists = resist_list(
        [DieType::CSlash, DieType::CPierce, DieType::CBlunt],
        [&page.stagger_slash, &page.stagger_pierce, &page.stagger_blunt],
        emojis,
    );
    let mut fields: Vec<PlanField> = vec![
        PlanField { header_key: "key_page_hp_header", value: i32_to_decimal(page.hp), inline: true },
        PlanField { header_key: "key_page_stagger_header", value: i32_to_decimal(page.stagger), inline: true },
        PlanField { header_key: "key_page_speed_header", value: string_of(&speed), inline: true },
        PlanField { header_key: "key_page_hp_resist_header", value: hp_resists, inline: true },
        PlanField { header_key: "key_page_stagger_resist_header", value: stagger_resists, inline: true },
        PlanField { header_key: "key_page_rarity_header", value: page.rarity.to_string(), inline: true },
    ];
    let ghost stats = key_page_stat_fields(*page, *emojis);
    assert(fields@.len() == 6);
    assert(plan_field_view(fields@[0]) == stats[0]);
    assert(plan_field_view(fields@[1]) == stats[1]);
    assert(plan_field_view(fields@[2]) == stats[2]);
    assert(plan_field_view(fields@[3]) == stats[3]);
    assert(plan_field_view(fields@[4]) == stats[4]);
    assert(plan_field_view(fields@[5]) == stats[5]);
    assert(plan_fields_view(fields@) =~= stats);
    let ghost light: Seq<(Seq<char>, Seq<char>, bool)> = if page.base_light != 3 {
        seq![("key_page_base_light_header"@, decimal(page.base_light as int), false)]
    } else {
        Seq::empty()
    };
    let ghost passives: Seq<(Seq<char>, Seq<char>, bool)> = if page.passive_names.len() > 0 {
        seq![("key_page_passives_header"@, bullet_list(views(page.passive_names@)), true)]
    } else {
        Seq::empty()
    };
    if page.base_light != 3 {
        fields.push(PlanField { header_key: "key_page_base_light_header", value: i32_to_decimal(page.base_light), inline: false });
    }
    assert(plan_fields_view(fields@) =~= stats + light);
    if page.passive_names.len() > 0 {
        fields.push(PlanField {
            header_key: "key_page_passives_header",
            value: format_to_indented_list(page.passive_names.as_slice()),
            inline: true,
        });
    }
    assert(plan_fields_view(fields@) =~= stats + light + passives);
    let mut image: Vec<char> = Vec::new();
    append_str(&mut image, "https://");
    append_str(&mut image, bucket);
    append_str(&mut image, ".s3.amazonaws.com/Sprite/");
    append_str(&mut image, page.id.as_str());
    append_str(&mut image, ".png");
    let mut url: Vec<char> = Vec::new();
    append_str(&mut url, "https://tiphereth.zasz.su/keypages/");
    append_str(&mut url, page.id.as_str());
    append_str(&mut url, "/");
    assert(plan_fields_view(fields@) =~= key_page_fields(*page, *emojis));
    KeyPagePlan {
        title,
        color: page.rarity.color().value(),
        image_url: string_of(&image),
        url: string_of(&url),
        fields,
    }
}

} // verus!
