use vstd::prelude::*;

use crate::deck::pair_views;
use crate::text::{append_str, str_eq, string_of};

verus! {

/// A configured channel as plain values: its id and, when the setting is text, the setting.
pub open spec fn setting_view(e: (String, Option<String>)) -> (Seq<char>, Option<Seq<char>>) {
    (e.0@, match e.1 {
        Some(v) => Some(v@),
        None => None,
    })
}

/// The channels that have a spoiler limit, with the chapter written as source text: the
/// settings that are text other than `None`, in order.
pub open spec fn spoiler_limits(s: Seq<(Seq<char>, Option<Seq<char>>)>) -> Seq<(Seq<char>, Seq<char>)>
    decreases s.len(),
{
    if s.len() == 0 {
        Seq::empty()
    } else {
        let rest = spoiler_limits(s.drop_last());
        match s.last().1 {
            Some(v) => if v == "None"@ {
                rest
            } else {
                rest.push((s.last().0, "Chapter::"@ + v))
            },
            None => rest,
        }
    }
}

/// The spoiler limits of the channels of the bot's configuration, ready to be compiled
/// into the channel table.
pub fn spoiler_config_entries(entries: &[(String, Option<String>)]) -> (r: Vec<(String, String)>)
    ensures
        pair_views(r@) == spoiler_limits(entries@.map_values(|e: (String, Option<String>)| setting_view(e))),
{
    let ghost all = entries@.map_values(|e: (String, Option<String>)| setting_view(e));
    let mut out: Vec<(String, String)> = Vec::new();
    let mut i: usize = 0;
    while i < entries.len()
        invariant
            i <= entries.len(),
            all == entries@.map_values(|e: (String, Option<String>)| setting_view(e)),
            pair_views(out@) == spoiler_limits(all.take(i as int)),
        decreases entries.len() - i,
    {
        assert(all.take(i + 1).drop_last() == all.take(i as int));
        assert(all.take(i + 1).last() == setting_view(entries@[i as int]));
        let ghost before = out@;
        match &entries[i].1 {
            Some(v) => {
                if !str_eq(v.as_str(), "None") {
                    let mut chapter: Vec<char> = Vec::new();
                    append_str(&mut chapter, "Chapter::");
                    append_str(&mut chapter, v.as_str());
                    let c = string_of(&chapter);
                    out.push((entries[i].0.clone(), c));
                    assert(pair_views(out@) =~= pair_views(before).push((entries@[i as int].0@, "Chapter::"@ + v@)));
                }
            },
            None => {},
        }
        i = i + 1;
    }
    assert(all.take(entries.len() as int) == all);
    out
}

/// The setting of the first entry of `config` for the channel `channel`, if one is.
pub open spec fn first_setting(config: Seq<(Seq<char>, u8)>, channel: Seq<char>) -> Option<u8>
    decreases config.len(),
{
    if config.len() == 0 {
        None
    } else if config[0].0 == channel {
        Some(config[0].1)
    } else {
        first_setting(config.skip(1), channel)
    }
}

/// A channel table as plain values.
pub open spec fn config_view(config: Seq<(String, u8)>) -> Seq<(Seq<char>, u8)> {
    config.map_values(|e: (String, u8)| (e.0@, e.1))
}

/// The spoiler limit of the channel an interaction comes from: the chapter configured for
/// it, by the chapter's place in the story; none when the interaction names no channel or
/// the channel has no limit.
pub fn channel_spoiler_limit(config: &[(String, u8)], channel_id: &Option<String>) -> (r: Option<u8>)
    ensures
        r == match channel_id {
            Some(c) => first_setting(config_view(config@), c@),
            None => None,
        },
{
    let c = match channel_id {
        Some(c) => c,
        None => return None,
    };
    let ghost all = config_view(config@);
    assert(all.skip(0) =~= all);
    let mut i: usize = 0;
    while i < config.len()
        invariant
            i <= config.len(),
            all == config_view(config@),
            channel_id matches Some(d) && d@ == c@,
            first_setting(all, c@) == first_setting(all.skip(i as int), c@),
        decreases config.len() - i,
    {
        assert(all.skip(i as int)[0] == all[i as int]);
        assert(all[i as int] == (config@[i as int].0@, config@[i as int].1));
        assert(all.skip(i as int).skip(1) =~= all.skip(i + 1));
        if str_eq(config[i].0.as_str(), c.as_str()) {
            return Some(config[i].1);
        }
        i = i + 1;
    }
    None
}

/// Whether a card is withheld as a spoiler: it belongs to a chapter later than the
/// channel's limit. A card of no chapter, or a channel with no limit, shows everything.
pub fn is_spoiler(chapter: Option<u8>, limit: Option<u8>) -> (b: bool)
    ensures
        b == match (chapter, limit) {
            (Some(c), Some(l)) => c > l,
            _ => false,
        },
{
    match (chapter, limit) {
        (Some(c), Some(l)) => c > l,
        _ => false,
    }
}

} // verus!
