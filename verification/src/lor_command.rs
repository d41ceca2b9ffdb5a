use vstd::prelude::*;

use crate::discord::{DiscordInteractionOptionValue, DiscordInteractionOptions};
use crate::utils::{get_option_value, named_value};

verus! {

/// Whether an option value, where there is one, is text.
pub open spec fn is_text_or_absent(v: Option<DiscordInteractionOptionValue>) -> bool {
    match v {
        Some(DiscordInteractionOptionValue::String(_)) => true,
        Some(_) => false,
        None => true,
    }
}

/// Whether an option value, where there is one, is a boolean.
pub open spec fn is_bool_or_absent(v: Option<DiscordInteractionOptionValue>) -> bool {
    match v {
        Some(DiscordInteractionOptionValue::Bool(_)) => true,
        Some(_) => false,
        None => true,
    }
}

/// The text of an option value, if it is text.
pub open spec fn text_of(v: Option<DiscordInteractionOptionValue>) -> Option<Seq<char>> {
    match v {
        Some(DiscordInteractionOptionValue::String(s)) => Some(s@),
        _ => None,
    }
}

/// The text of the first option named `name`, which must be text where it is present.
pub(crate) fn option_text(name: &str, options: &[DiscordInteractionOptions]) -> (r: Option<String>)
    requires
        is_text_or_absent(named_value(options@, name@)),
    ensures
        match r {
            Some(s) => text_of(named_value(options@, name@)) == Some(s@),
            None => named_value(options@, name@) is None,
        },
{
    match get_option_value(name, options) {
        Some(DiscordInteractionOptionValue::String(s)) => Some(s.clone()),
        Some(_) => vstd::pervasive::unreached(),
        None => None,
    }
}

/// The text of the `query` option, which a card lookup always has.
pub fn get_query_option(vec: &[DiscordInteractionOptions]) -> (q: String)
    requires
        text_of(named_value(vec@, "query"@)) is Some,
    ensures
        Some(q@) == text_of(named_value(vec@, "query"@)),
{
    match option_text("query", vec) {
        Some(s) => s,
        None => vstd::pervasive::unreached(),
    }
}

/// The text of the `locale` option, if it is given.
pub fn get_locale_option(vec: &[DiscordInteractionOptions]) -> (l: Option<String>)
    requires
        is_text_or_absent(named_value(vec@, "locale"@)),
    ensures
        match l {
            Some(s) => text_of(named_value(vec@, "locale"@)) == Some(s@),
            None => named_value(vec@, "locale"@) is None,
        },
{
    option_text("locale", vec)
}

/// The value of the `private` option, if it is given.
pub fn get_private_option(vec: &[DiscordInteractionOptions]) -> (p: Option<bool>)
    requires
        is_bool_or_absent(named_value(vec@, "private"@)),
    ensures
        match p {
            Some(b) => named_value(vec@, "private"@) == Some(DiscordInteractionOptionValue::Bool(b)),
            None => named_value(vec@, "private"@) is None,
        },
{
    match get_option_value("private", vec) {
        Some(DiscordInteractionOptionValue::Bool(b)) => Some(*b),
        Some(_) => vstd::pervasive::unreached(),
        None => None,
    }
}

} // verus!
