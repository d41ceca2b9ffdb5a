use vstd::prelude::*;

use crate::binahbot::{locale_of_tag, BinahBotLocale};
use crate::discord::{DiscordInteraction, DiscordInteractionOptionValue, DiscordInteractionOptions};
use crate::text::{chars_of, has_prefix, str_eq, string_of_range};

verus! {

/// The id of the button that deletes the message it is on.
pub const DELETE_BUTTON_CUSTOM_ID: &'static str = "delete";

/// The value of the first option named `name`, if one is.
pub open spec fn named_value(options: Seq<DiscordInteractionOptions>, name: Seq<char>) -> Option<
    DiscordInteractionOptionValue,
>
    decreases options.len(),
{
    if options.len() == 0 {
        None
    } else if options[0].name@ == name {
        Some(options[0].value)
    } else {
        named_value(options.skip(1), name)
    }
}

proof fn lemma_named_value(options: Seq<DiscordInteractionOptions>, name: Seq<char>, i: int)
    requires
        0 <= i < options.len(),
        options[i].name@ == name,
        forall|j: int| 0 <= j < i ==> options[j].name@ != name,
    ensures
        named_value(options, name) == Some(options[i].value),
    decreases i,
{
    if i > 0 {
        assert(options[0].name@ != name);
        lemma_named_value(options.skip(1), name, i - 1);
    }
}

proof fn lemma_named_value_none(options: Seq<DiscordInteractionOptions>, name: Seq<char>)
    requires
        forall|j: int| 0 <= j < options.len() ==> options[j].name@ != name,
    ensures
        named_value(options, name) is None,
    decreases options.len(),
{
    if options.len() > 0 {
        assert(options[0].name@ != name);
        lemma_named_value_none(options.skip(1), name);
    }
}

/// The value of the first option named `option_name`, if one is.
pub fn get_option_value<'a>(
    option_name: &'a str,
    options: &'a [DiscordInteractionOptions],
) -> (r: Option<&'a DiscordInteractionOptionValue>)
    ensures
        match r {
            Some(v) => exists|i: int|
                0 <= i < options@.len() && options@[i].name@ == option_name@ && (forall|j: int|
                    0 <= j < i ==> options@[j].name@ != option_name@) && *v == options@[i].value,
            None => forall|i: int| 0 <= i < options@.len() ==> options@[i].name@ != option_name@,
        },
        match r {
            Some(v) => named_value(options@, option_name@) == Some(*v),
            None => named_value(options@, option_name@) is None,
        },
{
    let mut i: usize = 0;
    while i < options.len()
        invariant
            i <= options@.len(),
            forall|j: int| 0 <= j < i ==> options@[j].name@ != option_name@,
        decreases options.len() - i,
    {
        if str_eq(options[i].name.as_str(), option_name) {
            proof {
                lemma_named_value(options@, option_name@, i as int);
            }
            return Some(&options[i].value);
        }
        i = i + 1;
    }
    proof {
        lemma_named_value_none(options@, option_name@);
    }
    None
}

/// The first option the user is typing in, if any.
pub fn get_focused_option(options: &[DiscordInteractionOptions]) -> (r: Option<
    &DiscordInteractionOptions,
>)
    ensures
        match r {
            Some(o) => exists|i: int|
                0 <= i < options@.len() && options@[i].focused == Some(true) && (forall|j: int|
                    0 <= j < i ==> options@[j].focused != Some(true)) && *o == options@[i],
            None => forall|i: int| 0 <= i < options@.len() ==> options@[i].focused != Some(true),
        },
{
    let mut i: usize = 0;
    while i < options.len()
        invariant
            i <= options@.len(),
            forall|j: int| 0 <= j < i ==> options@[j].focused != Some(true),
        decreases options.len() - i,
    {
        if options[i].focused == Some(true) {
            return Some(&options[i]);
        }
        i = i + 1;
    }
    None
}

/// The locale an interaction is answered in: the user's locale if it is set, else the
/// server's, read as a tag; English when neither is set or the one taken is not a tag.
pub open spec fn interaction_locale(locale: Option<String>, guild_locale: Option<String>) -> BinahBotLocale {
    let chosen = if locale is Some { locale } else { guild_locale };
    match chosen {
        Some(s) => match locale_of_tag(s@) {
            Some(l) => l,
            None => BinahBotLocale::EnglishUS,
        },
        None => BinahBotLocale::EnglishUS,
    }
}

/// The locale to answer `interaction` in.
pub fn get_binahbot_locale(interaction: &DiscordInteraction) -> (l: BinahBotLocale)
    ensures
        l == interaction_locale(interaction.locale, interaction.guild_locale),
{
    let chosen = match &interaction.locale {
        Some(s) => Some(s),
        None => interaction.guild_locale.as_ref(),
    };
    match chosen {
        Some(s) => match BinahBotLocale::from_str(s.as_str()) {
            Some(l) => l,
            None => BinahBotLocale::EnglishUS,
        },
        None => BinahBotLocale::EnglishUS,
    }
}

/// The address of the deck pages of Tiphereth.
pub open spec fn tiph_deck_url() -> Seq<char> {
    "https://tiphereth.zasz.su/u/decks"@
}

/// A deck id from what a user typed: the address of the deck pages taken off its front,
/// then one `/` off the front and one `/` off the end, where they are.
pub open spec fn tiph_deck_id_spec(s: Seq<char>) -> Seq<char> {
    let u = tiph_deck_url();
    let a = if u.len() <= s.len() && s.take(u.len() as int) == u {
        s.skip(u.len() as int)
    } else {
        s
    };
    let b = if a.len() > 0 && a[0] == '/' {
        a.skip(1)
    } else {
        a
    };
    if b.len() > 0 && b.last() == '/' {
        b.drop_last()
    } else {
        b
    }
}

/// The Tiphereth deck id in a raw id or a deck address.
pub fn parse_tiph_deck_id(raw_input: &str) -> (id: String)
    ensures
        id@ == tiph_deck_id_spec(raw_input@),
{
    let url = chars_of("https://tiphereth.zasz.su/u/decks");
    let chars = chars_of(raw_input);
    let mut lo: usize = 0;
    let mut hi: usize = chars.len();
    if has_prefix(&chars, &url) {
        lo = url.len();
    }
    let ghost a = chars@.subrange(lo as int, hi as int);
    if lo < hi && chars[lo] == '/' {
        lo = lo + 1;
    }
    let ghost b = chars@.subrange(lo as int, hi as int);
    if lo < hi && chars[hi - 1] == '/' {
        hi = hi - 1;
    }
    proof {
        assert(a =~= (if url@.len() <= chars@.len() && chars@.take(url@.len() as int) == url@ {
            chars@.skip(url@.len() as int)
        } else {
            chars@
        }));
        assert(b =~= (if a.len() > 0 && a[0] == '/' { a.skip(1) } else { a }));
        assert(chars@.subrange(lo as int, hi as int) =~= (if b.len() > 0 && b.last() == '/' {
            b.drop_last()
        } else {
            b
        }));
    }
    string_of_range(&chars, lo, hi)
}

} // verus!
