use vstd::prelude::*;

use crate::text::str_eq;

verus! {

/// The credentials of the bot's Discord application.
#[derive(Debug)]
pub struct DiscordSecrets {
    pub application_id: String,
    pub auth_token: String,
    pub public_key: String,
    pub bot_token: String,
}

/// The custom emojis the bot writes in its messages, where configured.
#[derive(Debug)]
pub struct Emojis {
    pub slash: Option<String>,
    pub pierce: Option<String>,
    pub blunt: Option<String>,
    pub block: Option<String>,
    pub evade: Option<String>,
    pub c_slash: Option<String>,
    pub c_pierce: Option<String>,
    pub c_blunt: Option<String>,
    pub c_block: Option<String>,
    pub c_evade: Option<String>,
    pub instinct: Option<String>,
    pub insight: Option<String>,
    pub attachment: Option<String>,
    pub repression: Option<String>,
    pub agent: Option<String>,
    pub red_damage: Option<String>,
    pub white_damage: Option<String>,
    pub black_damage: Option<String>,
    pub pale_damage: Option<String>,
    pub good_mood: Option<String>,
    pub normal_mood: Option<String>,
    pub bad_mood: Option<String>,
    pub risk_zayin: Option<String>,
    pub risk_teth: Option<String>,
    pub risk_he: Option<String>,
    pub risk_waw: Option<String>,
    pub risk_aleph: Option<String>,
}

/// A record that keeps a message deletable by its author until `ttl`.
#[derive(Debug)]
pub struct InteractionTtl {
    pub interaction_id: String,
    pub ttl: u64,
    pub token: String,
    pub original_user_id: String,
}

/// The Discord locales the bot answers in.
#[derive(Debug, Clone, Copy, PartialEq, Eq, Structural)]
pub enum BinahBotLocale {
    EnglishUS,
    Korean,
    Japanese,
    ChineseChina,
    ChineseTaiwan,
    Other,
}

/// The tag by which Discord names a locale.
pub open spec fn locale_tag(l: BinahBotLocale) -> Seq<char> {
    match l {
        BinahBotLocale::EnglishUS => seq!['e', 'n', '-', 'U', 'S'],
        BinahBotLocale::Korean => seq!['k', 'o'],
        BinahBotLocale::Japanese => seq!['j', 'a'],
        BinahBotLocale::ChineseChina => seq!['z', 'h', '-', 'C', 'N'],
        BinahBotLocale::ChineseTaiwan => seq!['z', 'h', '-', 'T', 'W'],
        BinahBotLocale::Other => seq!['O', 't', 'h', 'e', 'r'],
    }
}

/// The locale whose tag is exactly `s`, if any.
pub open spec fn locale_of_tag(s: Seq<char>) -> Option<BinahBotLocale> {
    if s == locale_tag(BinahBotLocale::EnglishUS) {
        Some(BinahBotLocale::EnglishUS)
    } else if s == locale_tag(BinahBotLocale::Korean) {
        Some(BinahBotLocale::Korean)
    } else if s == locale_tag(BinahBotLocale::Japanese) {
        Some(BinahBotLocale::Japanese)
    } else if s == locale_tag(BinahBotLocale::ChineseChina) {
        Some(BinahBotLocale::ChineseChina)
    } else if s == locale_tag(BinahBotLocale::ChineseTaiwan) {
        Some(BinahBotLocale::ChineseTaiwan)
    } else if s == locale_tag(BinahBotLocale::Other) {
        Some(BinahBotLocale::Other)
    } else {
        None
    }
}

impl BinahBotLocale {
    /// The tag of this locale.
    pub fn to_string(&self) -> (s: String)
        ensures
            s@ == locale_tag(*self),
    {
        proof {
            reveal_strlit("en-US");
            reveal_strlit("ko");
            reveal_strlit("ja");
            reveal_strlit("zh-CN");
            reveal_strlit("zh-TW");
            reveal_strlit("Other");
        }
        match self {
            BinahBotLocale::EnglishUS => "en-US".to_owned(),
            BinahBotLocale::Korean => "ko".to_owned(),
            BinahBotLocale::Japanese => "ja".to_owned(),
            BinahBotLocale::ChineseChina => "zh-CN".to_owned(),
            BinahBotLocale::ChineseTaiwan => "zh-TW".to_owned(),
            BinahBotLocale::Other => "Other".to_owned(),
        }
    }

    /// The locale whose tag is exactly `s`; none for any other text.
    pub fn from_str(s: &str) -> (r: Option<BinahBotLocale>)
        ensures
            r == locale_of_tag(s@),
    {
        proof {
            reveal_strlit("en-US");
            reveal_strlit("ko");
            reveal_strlit("ja");
            reveal_strlit("zh-CN");
            reveal_strlit("zh-TW");
            reveal_strlit("Other");
        }
        assert("en-US"@ =~= locale_tag(BinahBotLocale::EnglishUS));
        assert("ko"@ =~= locale_tag(BinahBotLocale::Korean));
        assert("ja"@ =~= locale_tag(BinahBotLocale::Japanese));
        assert("zh-CN"@ =~= locale_tag(BinahBotLocale::ChineseChina));
        assert("zh-TW"@ =~= locale_tag(BinahBotLocale::ChineseTaiwan));
        assert("Other"@ =~= locale_tag(BinahBotLocale::Other));
        if str_eq(s, "en-US") {
            Some(BinahBotLocale::EnglishUS)
        } else if str_eq(s, "ko") {
            Some(BinahBotLocale::Korean)
        } else if str_eq(s, "ja") {
            Some(BinahBotLocale::Japanese)
        } else if str_eq(s, "zh-CN") {
            Some(BinahBotLocale::ChineseChina)
        } else if str_eq(s, "zh-TW") {
            Some(BinahBotLocale::ChineseTaiwan)
        } else if str_eq(s, "Other") {
            Some(BinahBotLocale::Other)
        } else {
            None
        }
    }
}

/// Every locale is read back from its own tag.
pub proof fn lemma_locale_tag_round_trip(l: BinahBotLocale)
    ensures
        locale_of_tag(locale_tag(l)) == Some(l),
{
    assert(locale_tag(BinahBotLocale::EnglishUS) != locale_tag(BinahBotLocale::Korean));
    assert(locale_tag(BinahBotLocale::EnglishUS)[0] != locale_tag(BinahBotLocale::Japanese)[0]);
    assert(locale_tag(BinahBotLocale::EnglishUS)[0] != locale_tag(BinahBotLocale::ChineseChina)[0]);
    assert(locale_tag(BinahBotLocale::EnglishUS)[0] != locale_tag(BinahBotLocale::ChineseTaiwan)[0]);
    assert(locale_tag(BinahBotLocale::EnglishUS)[0] != locale_tag(BinahBotLocale::Other)[0]);
    assert(locale_tag(BinahBotLocale::Korean)[0] != locale_tag(BinahBotLocale::Japanese)[0]);
    assert(locale_tag(BinahBotLocale::Korean) != locale_tag(BinahBotLocale::ChineseChina));
    assert(locale_tag(BinahBotLocale::Korean) != locale_tag(BinahBotLocale::ChineseTaiwan));
    assert(locale_tag(BinahBotLocale::Korean) != locale_tag(BinahBotLocale::Other));
    assert(locale_tag(BinahBotLocale::Japanese) != locale_tag(BinahBotLocale::ChineseChina));
    assert(locale_tag(BinahBotLocale::Japanese) != locale_tag(BinahBotLocale::ChineseTaiwan));
    assert(locale_tag(BinahBotLocale::Japanese) != locale_tag(BinahBotLocale::Other));
    assert(locale_tag(BinahBotLocale::ChineseChina)[3] != locale_tag(BinahBotLocale::ChineseTaiwan)[3]);
    assert(locale_tag(BinahBotLocale::ChineseChina)[0] != locale_tag(BinahBotLocale::Other)[0]);
    assert(locale_tag(BinahBotLocale::ChineseTaiwan)[0] != locale_tag(BinahBotLocale::Other)[0]);
}

/// The colours of the bot's embeds.
#[derive(Debug, Clone, Copy, PartialEq, Eq, Structural)]
pub enum DiscordEmbedColors {
    Default,
    AwakeningAbnoPage,
    BreakdownAbnoPage,
    PaperbackRarity,
    HardcoverRarity,
    LimitedRarity,
    ObjetDArtRarity,
    Zayin,
    Teth,
    He,
    Waw,
    Aleph,
}

/// The RGB value of an embed colour.
pub open spec fn color_value(c: DiscordEmbedColors) -> i32 {
    match c {
        DiscordEmbedColors::Default => 0x0d0011i32,
        DiscordEmbedColors::AwakeningAbnoPage => 0x40ce78,
        DiscordEmbedColors::BreakdownAbnoPage => 0xd14141,
        DiscordEmbedColors::PaperbackRarity => 0x7bd671,
        DiscordEmbedColors::HardcoverRarity => 0x305fba,
        DiscordEmbedColors::LimitedRarity => 0x6b26bf,
        DiscordEmbedColors::ObjetDArtRarity => 0xebbe00,
        DiscordEmbedColors::Zayin => 0x22f800,
        DiscordEmbedColors::Teth => 0x1aa0ff,
        DiscordEmbedColors::He => 0xfef900,
        DiscordEmbedColors::Waw => 0x7b2ff3,
        DiscordEmbedColors::Aleph => 0xfe0000,
    }
}

impl DiscordEmbedColors {
    /// The RGB value Discord is sent for this colour.
    pub fn value(&self) -> (v: i32)
        ensures
            v == color_value(*self),
    {
        match self {
            DiscordEmbedColors::Default => 0x0d0011,
            DiscordEmbedColors::AwakeningAbnoPage => 0x40ce78,
            DiscordEmbedColors::BreakdownAbnoPage => 0xd14141,
            DiscordEmbedColors::PaperbackRarity => 0x7bd671,
            DiscordEmbedColors::HardcoverRarity => 0x305fba,
            DiscordEmbedColors::LimitedRarity => 0x6b26bf,
            DiscordEmbedColors::ObjetDArtRarity => 0xebbe00,
            DiscordEmbedColors::Zayin => 0x22f800,
            DiscordEmbedColors::Teth => 0x1aa0ff,
            DiscordEmbedColors::He => 0xfef900,
            DiscordEmbedColors::Waw => 0x7b2ff3,
            DiscordEmbedColors::Aleph => 0xfe0000,
        }
    }
}

} // verus!
