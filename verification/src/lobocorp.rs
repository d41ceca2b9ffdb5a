use vstd::prelude::*;

use crate::binahbot::BinahBotLocale;
use crate::text::str_eq;

verus! {

/// The languages the game's texts come in.
#[derive(Debug, Clone, Copy, PartialEq, Eq, Hash, Structural)]
pub enum Locale {
    Korean,
    English,
    Japanese,
    Chinese,
    ChineseTraditional,
    Russian,
    Bulgarian,
    Spanish,
    French,
    PortugueseBrazil,
    PortuguesePortugal,
}

/// The code by which the game's files name a language.
pub open spec fn game_locale_code(l: Locale) -> Seq<char> {
    match l {
        Locale::Korean => seq!['k', 'r'],
        Locale::English => seq!['e', 'n'],
        Locale::Japanese => seq!['j', 'p'],
        Locale::Chinese => seq!['c', 'n'],
        Locale::ChineseTraditional => seq!['c', 'n', '_', 't', 'r'],
        Locale::Russian => seq!['r', 'u'],
        Locale::Bulgarian => seq!['b', 'g'],
        Locale::Spanish => seq!['e', 's'],
        Locale::French => seq!['f', 'r'],
        Locale::PortugueseBrazil => seq!['p', 't', '_', 'b', 'r'],
        Locale::PortuguesePortugal => seq!['p', 't', '_', 'p', 't'],
    }
}

/// The language whose code is exactly `s`, if any.
pub open spec fn game_locale_of_code(s: Seq<char>) -> Option<Locale> {
    if s == seq!['k', 'r'] {
        Some(Locale::Korean)
    } else if s == seq!['e', 'n'] {
        Some(Locale::English)
    } else if s == seq!['j', 'p'] {
        Some(Locale::Japanese)
    } else if s == seq!['c', 'n'] {
        Some(Locale::Chinese)
    } else if s == seq!['c', 'n', '_', 't', 'r'] {
        Some(Locale::ChineseTraditional)
    } else if s == seq!['r', 'u'] {
        Some(Locale::Russian)
    } else if s == seq!['b', 'g'] {
        Some(Locale::Bulgarian)
    } else if s == seq!['e', 's'] {
        Some(Locale::Spanish)
    } else if s == seq!['f', 'r'] {
        Some(Locale::French)
    } else if s == seq!['p', 't', '_', 'b', 'r'] {
        Some(Locale::PortugueseBrazil)
    } else if s == seq!['p', 't', '_', 'p', 't'] {
        Some(Locale::PortuguesePortugal)
    } else {
        None
    }
}

/// The language tag that stands for a game language in a `LanguageIdentifier`.
pub open spec fn language_tag_of_game_locale(l: Locale) -> Seq<char> {
    match l {
        Locale::English => seq!['e', 'n', '-', 'U', 'S'],
        Locale::Korean => seq!['k', 'o'],
        Locale::Japanese => seq!['j', 'a'],
        Locale::Chinese => seq!['z', 'h', '-', 'C', 'N'],
        Locale::ChineseTraditional => seq!['z', 'h', '-', 'T', 'W'],
        Locale::Russian => seq!['r', 'u', '-', 'R', 'U'],
        Locale::Bulgarian => seq!['b', 'g'],
        Locale::Spanish => seq!['e', 's', '-', 'U', 'S'],
        Locale::French => seq!['f', 'r', '-', 'F', 'R'],
        Locale::PortugueseBrazil => seq!['p', 't', '-', 'B', 'R'],
        Locale::PortuguesePortugal => seq!['p', 't', '-', 'P', 'T'],
    }
}

impl Locale {
    /// The code of this language in the game's files.
    pub fn to_string(&self) -> (s: String)
        ensures
            s@ == game_locale_code(*self),
    {
        proof {
            lemma_literals();
        }
        match self {
            Locale::Korean => "kr".to_owned(),
            Locale::English => "en".to_owned(),
            Locale::Japanese => "jp".to_owned(),
            Locale::Chinese => "cn".to_owned(),
            Locale::ChineseTraditional => "cn_tr".to_owned(),
            Locale::Russian => "ru".to_owned(),
            Locale::Bulgarian => "bg".to_owned(),
            Locale::Spanish => "es".to_owned(),
            Locale::French => "fr".to_owned(),
            Locale::PortugueseBrazil => "pt_br".to_owned(),
            Locale::PortuguesePortugal => "pt_pt".to_owned(),
        }
    }

    /// The language whose code is exactly `s`; none for any other text.
    pub fn from_str(s: &str) -> (r: Option<Locale>)
        ensures
            r == game_locale_of_code(s@),
    {
        proof {
            lemma_literals();
        }
        if str_eq(s, "kr") {
            Some(Locale::Korean)
        } else if str_eq(s, "en") {
            Some(Locale::English)
        } else if str_eq(s, "jp") {
            Some(Locale::Japanese)
        } else if str_eq(s, "cn") {
            Some(Locale::Chinese)
        } else if str_eq(s, "cn_tr") {
            Some(Locale::ChineseTraditional)
        } else if str_eq(s, "ru") {
            Some(Locale::Russian)
        } else if str_eq(s, "bg") {
            Some(Locale::Bulgarian)
        } else if str_eq(s, "es") {
            Some(Locale::Spanish)
        } else if str_eq(s, "fr") {
            Some(Locale::French)
        } else if str_eq(s, "pt_br") {
            Some(Locale::PortugueseBrazil)
        } else if str_eq(s, "pt_pt") {
            Some(Locale::PortuguesePortugal)
        } else {
            None
        }
    }

    /// Every language, in declaration order.
    pub fn all() -> (v: Vec<Locale>)
        ensures
            v@ == seq![
                Locale::Korean,
                Locale::English,
                Locale::Japanese,
                Locale::Chinese,
                Locale::ChineseTraditional,
                Locale::Russian,
                Locale::Bulgarian,
                Locale::Spanish,
                Locale::French,
                Locale::PortugueseBrazil,
                Locale::PortuguesePortugal,
            ],
    {
        let v = vec![
            Locale::Korean,
            Locale::English,
            Locale::Japanese,
            Locale::Chinese,
            Locale::ChineseTraditional,
            Locale::Russian,
            Locale::Bulgarian,
            Locale::Spanish,
            Locale::French,
            Locale::PortugueseBrazil,
            Locale::PortuguesePortugal,
        ];
        v
    }

    /// The language tag that stands for this language.
    pub fn language_tag(&self) -> (s: String)
        ensures
            s@ == language_tag_of_game_locale(*self),
    {
        proof {
            lemma_literals();
        }
        match self {
            Locale::English => "en-US".to_owned(),
            Locale::Korean => "ko".to_owned(),
            Locale::Japanese => "ja".to_owned(),
            Locale::Chinese => "zh-CN".to_owned(),
            Locale::ChineseTraditional => "zh-TW".to_owned(),
            Locale::Russian => "ru-RU".to_owned(),
            Locale::Bulgarian => "bg".to_owned(),
            Locale::Spanish => "es-US".to_owned(),
            Locale::French => "fr-FR".to_owned(),
            Locale::PortugueseBrazil => "pt-BR".to_owned(),
            Locale::PortuguesePortugal => "pt-PT".to_owned(),
        }
    }
}

/// The texts of the literals this module compares with.
proof fn lemma_literals()
    ensures
        "kr"@ == seq!['k', 'r'],
        "en"@ == seq!['e', 'n'],
        "jp"@ == seq!['j', 'p'],
        "cn"@ == seq!['c', 'n'],
        "cn_tr"@ == seq!['c', 'n', '_', 't', 'r'],
        "ru"@ == seq!['r', 'u'],
        "bg"@ == seq!['b', 'g'],
        "es"@ == seq!['e', 's'],
        "fr"@ == seq!['f', 'r'],
        "pt_br"@ == seq!['p', 't', '_', 'b', 'r'],
        "pt_pt"@ == seq!['p', 't', '_', 'p', 't'],
        "en-US"@ == seq!['e', 'n', '-', 'U', 'S'],
        "ko"@ == seq!['k', 'o'],
        "ja"@ == seq!['j', 'a'],
        "zh-CN"@ == seq!['z', 'h', '-', 'C', 'N'],
        "zh-TW"@ == seq!['z', 'h', '-', 'T', 'W'],
        "ru-RU"@ == seq!['r', 'u', '-', 'R', 'U'],
        "es-US"@ == seq!['e', 's', '-', 'U', 'S'],
        "fr-FR"@ == seq!['f', 'r', '-', 'F', 'R'],
        "pt-BR"@ == seq!['p', 't', '-', 'B', 'R'],
        "pt-PT"@ == seq!['p', 't', '-', 'P', 'T'],
{
    reveal_strlit("kr");
    reveal_strlit("en");
    reveal_strlit("jp");
    reveal_strlit("cn");
    reveal_strlit("cn_tr");
    reveal_strlit("ru");
    reveal_strlit("bg");
    reveal_strlit("es");
    reveal_strlit("fr");
    reveal_strlit("pt_br");
    reveal_strlit("pt_pt");
    reveal_strlit("en-US");
    reveal_strlit("ko");
    reveal_strlit("ja");
    reveal_strlit("zh-CN");
    reveal_strlit("zh-TW");
    reveal_strlit("ru-RU");
    reveal_strlit("es-US");
    reveal_strlit("fr-FR");
    reveal_strlit("pt-BR");
    reveal_strlit("pt-PT");
    assert("kr"@ =~= seq!['k', 'r']);
    assert("en"@ =~= seq!['e', 'n']);
    assert("jp"@ =~= seq!['j', 'p']);
    assert("cn"@ =~= seq!['c', 'n']);
    assert("cn_tr"@ =~= seq!['c', 'n', '_', 't', 'r']);
    assert("ru"@ =~= seq!['r', 'u']);
    assert("bg"@ =~= seq!['b', 'g']);
    assert("es"@ =~= seq!['e', 's']);
    assert("fr"@ =~= seq!['f', 'r']);
    assert("pt_br"@ =~= seq!['p', 't', '_', 'b', 'r']);
    assert("pt_pt"@ =~= seq!['p', 't', '_', 'p', 't']);
    assert("en-US"@ =~= seq!['e', 'n', '-', 'U', 'S']);
    assert("ko"@ =~= seq!['k', 'o']);
    assert("ja"@ =~= seq!['j', 'a']);
    assert("zh-CN"@ =~= seq!['z', 'h', '-', 'C', 'N']);
    assert("zh-TW"@ =~= seq!['z', 'h', '-', 'T', 'W']);
    assert("ru-RU"@ =~= seq!['r', 'u', '-', 'R', 'U']);
    assert("es-US"@ =~= seq!['e', 's', '-', 'U', 'S']);
    assert("fr-FR"@ =~= seq!['f', 'r', '-', 'F', 'R']);
    assert("pt-BR"@ =~= seq!['p', 't', '-', 'B', 'R']);
    assert("pt-PT"@ =~= seq!['p', 't', '-', 'P', 'T']);
}

/// Every game language is read back from its own code.
pub proof fn lemma_game_locale_code_round_trip(l: Locale)
    ensures
        game_locale_of_code(game_locale_code(l)) == Some(l),
{
    match l {
        Locale::Korean => {
        },
        Locale::English => {
        assert(seq!['e', 'n'][0] != seq!['k', 'r'][0]);
        },
        Locale::Japanese => {
        assert(seq!['j', 'p'][0] != seq!['k', 'r'][0]);
        assert(seq!['j', 'p'][0] != seq!['e', 'n'][0]);
        },
        Locale::Chinese => {
        assert(seq!['c', 'n'][0] != seq!['k', 'r'][0]);
        assert(seq!['c', 'n'][0] != seq!['e', 'n'][0]);
        assert(seq!['c', 'n'][0] != seq!['j', 'p'][0]);
        },
        Locale::ChineseTraditional => {
        assert(seq!['c', 'n', '_', 't', 'r'].len() != seq!['k', 'r'].len());
        assert(seq!['c', 'n', '_', 't', 'r'].len() != seq!['e', 'n'].len());
        assert(seq!['c', 'n', '_', 't', 'r'].len() != seq!['j', 'p'].len());
        assert(seq!['c', 'n', '_', 't', 'r'].len() != seq!['c', 'n'].len());
        },
        Locale::Russian => {
        assert(seq!['r', 'u'][0] != seq!['k', 'r'][0]);
        assert(seq!['r', 'u'][0] != seq!['e', 'n'][0]);
        assert(seq!['r', 'u'][0] != seq!['j', 'p'][0]);
        assert(seq!['r', 'u'][0] != seq!['c', 'n'][0]);
        assert(seq!['r', 'u'].len() != seq!['c', 'n', '_', 't', 'r'].len());
        },
        Locale::Bulgarian => {
        assert(seq!['b', 'g'][0] != seq!['k', 'r'][0]);
        assert(seq!['b', 'g'][0] != seq!['e', 'n'][0]);
        assert(seq!['b', 'g'][0] != seq!['j', 'p'][0]);
        assert(seq!['b', 'g'][0] != seq!['c', 'n'][0]);
        assert(seq!['b', 'g'].len() != seq!['c', 'n', '_', 't', 'r'].len());
        assert(seq!['b', 'g'][0] != seq!['r', 'u'][0]);
        },
        Locale::Spanish => {
        assert(seq!['e', 's'][0] != seq!['k', 'r'][0]);
        assert(seq!['e', 's'][1] != seq!['e', 'n'][1]);
        assert(seq!['e', 's'][0] != seq!['j', 'p'][0]);
        assert(seq!['e', 's'][0] != seq!['c', 'n'][0]);
        assert(seq!['e', 's'].len() != seq!['c', 'n', '_', 't', 'r'].len());
        assert(seq!['e', 's'][0] != seq!['r', 'u'][0]);
        assert(seq!['e', 's'][0] != seq!['b', 'g'][0]);
        },
        Locale::French => {
        assert(seq!['f', 'r'][0] != seq!['k', 'r'][0]);
        assert(seq!['f', 'r'][0] != seq!['e', 'n'][0]);
        assert(seq!['f', 'r'][0] != seq!['j', 'p'][0]);
        assert(seq!['f', 'r'][0] != seq!['c', 'n'][0]);
        assert(seq!['f', 'r'].len() != seq!['c', 'n', '_', 't', 'r'].len());
        assert(seq!['f', 'r'][0] != seq!['r', 'u'][0]);
        assert(seq!['f', 'r'][0] != seq!['b', 'g'][0]);
        assert(seq!['f', 'r'][0] != seq!['e', 's'][0]);
        },
        Locale::PortugueseBrazil => {
        assert(seq!['p', 't', '_', 'b', 'r'].len() != seq!['k', 'r'].len());
        assert(seq!['p', 't', '_', 'b', 'r'].len() != seq!['e', 'n'].len());
        assert(seq!['p', 't', '_', 'b', 'r'].len() != seq!['j', 'p'].len());
        assert(seq!['p', 't', '_', 'b', 'r'].len() != seq!['c', 'n'].len());
        assert(seq!['p', 't', '_', 'b', 'r'][0] != seq!['c', 'n', '_', 't', 'r'][0]);
        assert(seq!['p', 't', '_', 'b', 'r'].len() != seq!['r', 'u'].len());
        assert(seq!['p', 't', '_', 'b', 'r'].len() != seq!['b', 'g'].len());
        assert(seq!['p', 't', '_', 'b', 'r'].len() != seq!['e', 's'].len());
        assert(seq!['p', 't', '_', 'b', 'r'].len() != seq!['f', 'r'].len());
        },
        Locale::PortuguesePortugal => {
        assert(seq!['p', 't', '_', 'p', 't'].len() != seq!['k', 'r'].len());
        assert(seq!['p', 't', '_', 'p', 't'].len() != seq!['e', 'n'].len());
        assert(seq!['p', 't', '_', 'p', 't'].len() != seq!['j', 'p'].len());
        assert(seq!['p', 't', '_', 'p', 't'].len() != seq!['c', 'n'].len());
        assert(seq!['p', 't', '_', 'p', 't'][0] != seq!['c', 'n', '_', 't', 'r'][0]);
        assert(seq!['p', 't', '_', 'p', 't'].len() != seq!['r', 'u'].len());
        assert(seq!['p', 't', '_', 'p', 't'].len() != seq!['b', 'g'].len());
        assert(seq!['p', 't', '_', 'p', 't'].len() != seq!['e', 's'].len());
        assert(seq!['p', 't', '_', 'p', 't'].len() != seq!['f', 'r'].len());
        assert(seq!['p', 't', '_', 'p', 't'][3] != seq!['p', 't', '_', 'b', 'r'][3]);
        },
    }
}

/// What a `unic_langid::LanguageIdentifier` is read for: its text in canonical form, and
/// its language subtag.
#[derive(Debug)]
pub struct LanguageTag {
    pub canonical: String,
    pub language: String,
}

/// What parsing a text as a `unic_langid::LanguageIdentifier` gives: its canonical text and
/// its language subtag, or nothing when the text is not a language identifier.
pub uninterp spec fn parse_language_identifier(s: Seq<char>) -> Option<(Seq<char>, Seq<char>)>;

/// Parses `s` with `unic_langid`'s `FromStr` for `LanguageIdentifier`, then reads the
/// identifier's `Display` text and `language.as_str()`. The contract says only that the
/// outcome is a function of `s` (named `parse_language_identifier`); the BCP 47 grammar
/// and the canonical casing it applies are not stated.
#[verifier::external_body]
pub(crate) fn language_tag_of(s: &str) -> (r: Option<LanguageTag>)
    ensures
        match r {
            Some(t) => parse_language_identifier(s@) == Some((t.canonical@, t.language@)),
            None => parse_language_identifier(s@) is None,
        },
{
    match s.parse::<unic_langid::LanguageIdentifier>() {
        Ok(id) => Some(LanguageTag { canonical: id.to_string(), language: id.language.as_str().to_owned() }),
        Err(_) => None,
    }
}

/// The game language for a language identifier: the identifiers the bot writes for its
/// languages map back to them, and any other one goes by its language subtag read as a
/// game code, English when it is none.
pub open spec fn game_locale_of_language(canonical: Seq<char>, language: Seq<char>) -> Locale {
    if canonical == seq!['e', 's', '-', 'U', 'S'] {
        Locale::Spanish
    } else if canonical == seq!['f', 'r', '-', 'F', 'R'] {
        Locale::French
    } else if canonical == seq!['k', 'o'] {
        Locale::Korean
    } else if canonical == seq!['j', 'a'] {
        Locale::Japanese
    } else if canonical == seq!['p', 't', '-', 'B', 'R'] {
        Locale::PortugueseBrazil
    } else if canonical == seq!['p', 't', '-', 'P', 'T'] {
        Locale::PortuguesePortugal
    } else if canonical == seq!['r', 'u', '-', 'R', 'U'] {
        Locale::Russian
    } else if canonical == seq!['z', 'h', '-', 'C', 'N'] {
        Locale::Chinese
    } else if canonical == seq!['z', 'h', '-', 'T', 'W'] {
        Locale::ChineseTraditional
    } else {
        match game_locale_of_code(language) {
            Some(l) => l,
            None => Locale::English,
        }
    }
}

/// The game language for a language identifier.
pub fn locale_from_language_tag(tag: &LanguageTag) -> (l: Locale)
    ensures
        l == game_locale_of_language(tag.canonical@, tag.language@),
{
        proof {
            lemma_literals();
        }
    let c = tag.canonical.as_str();
    if str_eq(c, "es-US") {
        Locale::Spanish
    } else if str_eq(c, "fr-FR") {
        Locale::French
    } else if str_eq(c, "ko") {
        Locale::Korean
    } else if str_eq(c, "ja") {
        Locale::Japanese
    } else if str_eq(c, "pt-BR") {
        Locale::PortugueseBrazil
    } else if str_eq(c, "pt-PT") {
        Locale::PortuguesePortugal
    } else if str_eq(c, "ru-RU") {
        Locale::Russian
    } else if str_eq(c, "zh-CN") {
        Locale::Chinese
    } else if str_eq(c, "zh-TW") {
        Locale::ChineseTraditional
    } else {
        match Locale::from_str(tag.language.as_str()) {
            Some(l) => l,
            None => Locale::English,
        }
    }
}

/// The game language for a language identifier given as text, or none when the text is
/// not a language identifier.
pub fn game_locale_of_language_identifier(s: &str) -> (r: Option<Locale>)
    ensures
        match r {
            Some(l) => parse_language_identifier(s@) is Some && l == game_locale_of_language(
                parse_language_identifier(s@)->Some_0.0,
                parse_language_identifier(s@)->Some_0.1,
            ),
            None => parse_language_identifier(s@) is None,
        },
{
    match language_tag_of(s) {
        Some(tag) => Some(locale_from_language_tag(&tag)),
        None => None,
    }
}

/// The canonical text of a language identifier given as text, or none when the text is
/// not a language identifier.
pub fn canonical_language_identifier(s: &str) -> (r: Option<String>)
    ensures
        match r {
            Some(c) => parse_language_identifier(s@) is Some && c@ == parse_language_identifier(s@)->Some_0.0,
            None => parse_language_identifier(s@) is None,
        },
{
    match language_tag_of(s) {
        Some(tag) => Some(tag.canonical),
        None => None,
    }
}

/// The language subtag of a tag the bot writes: what comes before the first `-`.
pub open spec fn language_part(tag: Seq<char>) -> Seq<char> {
    if tag.len() >= 3 && tag[2] == '-' {
        tag.take(2)
    } else {
        tag
    }
}

/// Each game language comes back from the identifier the bot writes for it.
pub proof fn lemma_language_tag_round_trip(l: Locale)
    ensures
        game_locale_of_language(
            language_tag_of_game_locale(l),
            language_part(language_tag_of_game_locale(l)),
        ) == l,
{
    match l {
        Locale::Korean => {
        assert(seq!['k', 'o'].len() != seq!['e', 's', '-', 'U', 'S'].len());
        assert(seq!['k', 'o'].len() != seq!['f', 'r', '-', 'F', 'R'].len());
        },
        Locale::English => {
        assert(seq!['e', 'n', '-', 'U', 'S'][1] != seq!['e', 's', '-', 'U', 'S'][1]);
        assert(seq!['e', 'n', '-', 'U', 'S'][0] != seq!['f', 'r', '-', 'F', 'R'][0]);
        assert(seq!['e', 'n', '-', 'U', 'S'].len() != seq!['k', 'o'].len());
        assert(seq!['e', 'n', '-', 'U', 'S'].len() != seq!['j', 'a'].len());
        assert(seq!['e', 'n', '-', 'U', 'S'][0] != seq!['p', 't', '-', 'B', 'R'][0]);
        assert(seq!['e', 'n', '-', 'U', 'S'][0] != seq!['p', 't', '-', 'P', 'T'][0]);
        assert(seq!['e', 'n', '-', 'U', 'S'][0] != seq!['r', 'u', '-', 'R', 'U'][0]);
        assert(seq!['e', 'n', '-', 'U', 'S'][0] != seq!['z', 'h', '-', 'C', 'N'][0]);
        assert(seq!['e', 'n', '-', 'U', 'S'][0] != seq!['z', 'h', '-', 'T', 'W'][0]);
        assert(seq!['e', 'n', '-', 'U', 'S'][2] == '-');
        assert(seq!['e', 'n', '-', 'U', 'S'].take(2) =~= seq!['e', 'n']);
        assert(seq!['e', 'n'][0] != seq!['k', 'r'][0]);
        },
        Locale::Japanese => {
        assert(seq!['j', 'a'].len() != seq!['e', 's', '-', 'U', 'S'].len());
        assert(seq!['j', 'a'].len() != seq!['f', 'r', '-', 'F', 'R'].len());
        assert(seq!['j', 'a'][0] != seq!['k', 'o'][0]);
        },
        Locale::Chinese => {
        assert(seq!['z', 'h', '-', 'C', 'N'][0] != seq!['e', 's', '-', 'U', 'S'][0]);
        assert(seq!['z', 'h', '-', 'C', 'N'][0] != seq!['f', 'r', '-', 'F', 'R'][0]);
        assert(seq!['z', 'h', '-', 'C', 'N'].len() != seq!['k', 'o'].len());
        assert(seq!['z', 'h', '-', 'C', 'N'].len() != seq!['j', 'a'].len());
        assert(seq!['z', 'h', '-', 'C', 'N'][0] != seq!['p', 't', '-', 'B', 'R'][0]);
        assert(seq!['z', 'h', '-', 'C', 'N'][0] != seq!['p', 't', '-', 'P', 'T'][0]);
        assert(seq!['z', 'h', '-', 'C', 'N'][0] != seq!['r', 'u', '-', 'R', 'U'][0]);
        },
        Locale::ChineseTraditional => {
        assert(seq!['z', 'h', '-', 'T', 'W'][0] != seq!['e', 's', '-', 'U', 'S'][0]);
        assert(seq!['z', 'h', '-', 'T', 'W'][0] != seq!['f', 'r', '-', 'F', 'R'][0]);
        assert(seq!['z', 'h', '-', 'T', 'W'].len() != seq!['k', 'o'].len());
        assert(seq!['z', 'h', '-', 'T', 'W'].len() != seq!['j', 'a'].len());
        assert(seq!['z', 'h', '-', 'T', 'W'][0] != seq!['p', 't', '-', 'B', 'R'][0]);
        assert(seq!['z', 'h', '-', 'T', 'W'][0] != seq!['p', 't', '-', 'P', 'T'][0]);
        assert(seq!['z', 'h', '-', 'T', 'W'][0] != seq!['r', 'u', '-', 'R', 'U'][0]);
        assert(seq!['z', 'h', '-', 'T', 'W'][3] != seq!['z', 'h', '-', 'C', 'N'][3]);
        },
        Locale::Russian => {
        assert(seq!['r', 'u', '-', 'R', 'U'][0] != seq!['e', 's', '-', 'U', 'S'][0]);
        assert(seq!['r', 'u', '-', 'R', 'U'][0] != seq!['f', 'r', '-', 'F', 'R'][0]);
        assert(seq!['r', 'u', '-', 'R', 'U'].len() != seq!['k', 'o'].len());
        assert(seq!['r', 'u', '-', 'R', 'U'].len() != seq!['j', 'a'].len());
        assert(seq!['r', 'u', '-', 'R', 'U'][0] != seq!['p', 't', '-', 'B', 'R'][0]);
        assert(seq!['r', 'u', '-', 'R', 'U'][0] != seq!['p', 't', '-', 'P', 'T'][0]);
        },
        Locale::Bulgarian => {
        assert(seq!['b', 'g'].len() != seq!['e', 's', '-', 'U', 'S'].len());
        assert(seq!['b', 'g'].len() != seq!['f', 'r', '-', 'F', 'R'].len());
        assert(seq!['b', 'g'][0] != seq!['k', 'o'][0]);
        assert(seq!['b', 'g'][0] != seq!['j', 'a'][0]);
        assert(seq!['b', 'g'].len() != seq!['p', 't', '-', 'B', 'R'].len());
        assert(seq!['b', 'g'].len() != seq!['p', 't', '-', 'P', 'T'].len());
        assert(seq!['b', 'g'].len() != seq!['r', 'u', '-', 'R', 'U'].len());
        assert(seq!['b', 'g'].len() != seq!['z', 'h', '-', 'C', 'N'].len());
        assert(seq!['b', 'g'].len() != seq!['z', 'h', '-', 'T', 'W'].len());
        assert(seq!['b', 'g'][0] != seq!['k', 'r'][0]);
        assert(seq!['b', 'g'][0] != seq!['e', 'n'][0]);
        assert(seq!['b', 'g'][0] != seq!['j', 'p'][0]);
        assert(seq!['b', 'g'][0] != seq!['c', 'n'][0]);
        assert(seq!['b', 'g'].len() != seq!['c', 'n', '_', 't', 'r'].len());
        assert(seq!['b', 'g'][0] != seq!['r', 'u'][0]);
        },
        Locale::Spanish => {
        },
        Locale::French => {
        assert(seq!['f', 'r', '-', 'F', 'R'][0] != seq!['e', 's', '-', 'U', 'S'][0]);
        },
        Locale::PortugueseBrazil => {
        assert(seq!['p', 't', '-', 'B', 'R'][0] != seq!['e', 's', '-', 'U', 'S'][0]);
        assert(seq!['p', 't', '-', 'B', 'R'][0] != seq!['f', 'r', '-', 'F', 'R'][0]);
        assert(seq!['p', 't', '-', 'B', 'R'].len() != seq!['k', 'o'].len());
        assert(seq!['p', 't', '-', 'B', 'R'].len() != seq!['j', 'a'].len());
        },
        Locale::PortuguesePortugal => {
        assert(seq!['p', 't', '-', 'P', 'T'][0] != seq!['e', 's', '-', 'U', 'S'][0]);
        assert(seq!['p', 't', '-', 'P', 'T'][0] != seq!['f', 'r', '-', 'F', 'R'][0]);
        assert(seq!['p', 't', '-', 'P', 'T'].len() != seq!['k', 'o'].len());
        assert(seq!['p', 't', '-', 'P', 'T'].len() != seq!['j', 'a'].len());
        assert(seq!['p', 't', '-', 'P', 'T'][3] != seq!['p', 't', '-', 'B', 'R'][3]);
        },
    }
}

/// The bot's locale for a game language; the languages the bot does not speak give `Other`.
pub open spec fn binahbot_locale_of_game_locale(l: Locale) -> BinahBotLocale {
    match l {
        Locale::English => BinahBotLocale::EnglishUS,
        Locale::Korean => BinahBotLocale::Korean,
        Locale::Japanese => BinahBotLocale::Japanese,
        Locale::Chinese => BinahBotLocale::ChineseChina,
        Locale::ChineseTraditional => BinahBotLocale::ChineseTaiwan,
        _ => BinahBotLocale::Other,
    }
}

/// The game language for a bot locale; `Other` gives English.
pub open spec fn game_locale_of_binahbot_locale(l: BinahBotLocale) -> Locale {
    match l {
        BinahBotLocale::EnglishUS => Locale::English,
        BinahBotLocale::Korean => Locale::Korean,
        BinahBotLocale::Japanese => Locale::Japanese,
        BinahBotLocale::ChineseChina => Locale::Chinese,
        BinahBotLocale::ChineseTaiwan => Locale::ChineseTraditional,
        BinahBotLocale::Other => Locale::English,
    }
}

impl Locale {
    /// The bot's locale for this game language.
    pub fn to_binahbot_locale(&self) -> (b: BinahBotLocale)
        ensures
            b == binahbot_locale_of_game_locale(*self),
    {
        match self {
            Locale::English => BinahBotLocale::EnglishUS,
            Locale::Korean => BinahBotLocale::Korean,
            Locale::Japanese => BinahBotLocale::Japanese,
            Locale::Chinese => BinahBotLocale::ChineseChina,
            Locale::ChineseTraditional => BinahBotLocale::ChineseTaiwan,
            _ => BinahBotLocale::Other,
        }
    }

    /// The game language for a bot locale.
    pub fn from_binahbot_locale(b: &BinahBotLocale) -> (l: Locale)
        ensures
            l == game_locale_of_binahbot_locale(*b),
    {
        match b {
            BinahBotLocale::EnglishUS => Locale::English,
            BinahBotLocale::Korean => Locale::Korean,
            BinahBotLocale::Japanese => Locale::Japanese,
            BinahBotLocale::ChineseChina => Locale::Chinese,
            BinahBotLocale::ChineseTaiwan => Locale::ChineseTraditional,
            BinahBotLocale::Other => Locale::English,
        }
    }
}

/// A bot locale other than `Other` survives the trip to a game language and back, and a
/// game language the bot speaks survives the trip the other way.
pub proof fn lemma_locale_conversions_round_trip(b: BinahBotLocale, l: Locale)
    ensures
        b != BinahBotLocale::Other ==> binahbot_locale_of_game_locale(game_locale_of_binahbot_locale(b)) == b,
        binahbot_locale_of_game_locale(l) != BinahBotLocale::Other ==> game_locale_of_binahbot_locale(
            binahbot_locale_of_game_locale(l),
        ) == l,
{
}

} // verus!
