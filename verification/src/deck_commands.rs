use vstd::prelude::*;

use crate::binahbot::{color_value, DiscordEmbedColors};
use crate::analyzer::tally;
use crate::deck::{all_slots_filled, error_key, first_hash, generate_thumb_name, lemma_first_hash, parse_deck_name_option, thumb_key, validate_deck, xxh3_64_spec, Deck, DeckData, DeckValidationError, TiphDeck};
use crate::lists::{aggregate_count, bullet_list, count_view, format_to_list, str_views};
use crate::numbers::digits;
use crate::text::{string_of, views};
use crate::discord::{
    AllowedMentions, DiscordEmbed, DiscordInteraction, DiscordInteractionData, DiscordInteractionOptionValue,
    DiscordInteractionOptions, DiscordInteractionResponseMessage, DiscordInteractionResponseType,
    DiscordUser, MessageResponse,
};
use crate::lor_command::{is_bool_or_absent, is_text_or_absent, option_text, text_of};
use crate::rollcalc::{command_options, EPHEMERAL_FLAG};
use crate::utils::{get_option_value, named_value, parse_tiph_deck_id, tiph_deck_id_spec};

verus! {

/// The version of Tiphereth deck codes that the bot writes.
pub const DEFAULT_TIPH_DECK_VERSION: i32 = 1;

/// The user who made an interaction: its user where it has one, else the server member's.
/// The member's user is read in either case, so an interaction without one is not served.
pub open spec fn author_of(i: DiscordInteraction) -> Option<DiscordUser> {
    match i.user {
        Some(u) => Some(u),
        None => match i.member {
            Some(m) => m.user,
            None => None,
        },
    }
}

/// Whether an interaction names its member's user, which every deck command reads.
pub open spec fn has_member_user(i: DiscordInteraction) -> bool {
    match i.member {
        Some(m) => m.user is Some,
        None => false,
    }
}

/// The user who made an interaction.
pub fn interaction_author(interaction: &DiscordInteraction) -> (u: &DiscordUser)
    requires
        has_member_user(*interaction),
    ensures
        author_of(*interaction) == Some(*u),
{
    match &interaction.user {
        Some(u) => u,
        None => match &interaction.member {
            Some(m) => match &m.user {
                Some(u) => u,
                None => vstd::pervasive::unreached(),
            },
            None => vstd::pervasive::unreached(),
        },
    }
}

/// The text of an option, where it is text.
fn text_or_none(name: &str, options: &[DiscordInteractionOptions]) -> (r: Option<String>)
    ensures
        match r {
            Some(s) => text_of(named_value(options@, name@)) == Some(s@),
            None => text_of(named_value(options@, name@)) is None,
        },
{
    match get_option_value(name, options) {
        Some(DiscordInteractionOptionValue::String(s)) => Some(s.clone()),
        _ => None,
    }
}

/// What saving a new deck is asked for.
#[derive(Debug)]
pub struct CreateDeckRequest {
    pub tiph_deck: TiphDeck,
    pub name: String,
    pub description: Option<String>,
    pub author_id: String,
    pub author_name: String,
}

/// The interactions that ask to save a deck: they have options, the `deck` and `name`
/// options are text, and the member's user is named.
pub open spec fn create_deck_accepts(i: DiscordInteraction) -> bool {
    &&& command_options(i) is Some
    &&& text_of(named_value(command_options(i)->Some_0, "deck"@)) is Some
    &&& text_of(named_value(command_options(i)->Some_0, "name"@)) is Some
    &&& has_member_user(i)
}

/// The options of an interaction that has them.
fn options_of(interaction: &DiscordInteraction) -> (o: &Vec<DiscordInteractionOptions>)
    requires
        command_options(*interaction) is Some,
    ensures
        command_options(*interaction) == Some(o@),
{
    match &interaction.data {
        Some(DiscordInteractionData::ApplicationCommand(d)) => match &d.options {
            Some(o) => o,
            None => vstd::pervasive::unreached(),
        },
        _ => vstd::pervasive::unreached(),
    }
}

/// Reads a request to save a deck: the Tiphereth code from the `deck` option, the name, the
/// description where it is text, and the author.
pub fn create_deck_request(interaction: &DiscordInteraction) -> (r: CreateDeckRequest)
    requires
        create_deck_accepts(*interaction),
    ensures
        r.tiph_deck.0@ == tiph_deck_id_spec(text_of(named_value(command_options(*interaction)->Some_0, "deck"@))->Some_0),
        r.tiph_deck.1 == DEFAULT_TIPH_DECK_VERSION,
        Some(r.name@) == text_of(named_value(command_options(*interaction)->Some_0, "name"@)),
        match r.description {
            Some(d) => text_of(named_value(command_options(*interaction)->Some_0, "description"@)) == Some(d@),
            None => text_of(named_value(command_options(*interaction)->Some_0, "description"@)) is None,
        },
        r.author_id@ == author_of(*interaction)->Some_0.id@,
        r.author_name@ == author_of(*interaction)->Some_0.username@,
{
    let options = options_of(interaction);
    let deck = match text_or_none("deck", options.as_slice()) {
        Some(s) => s,
        None => vstd::pervasive::unreached(),
    };
    let name = match text_or_none("name", options.as_slice()) {
        Some(s) => s,
        None => vstd::pervasive::unreached(),
    };
    let description = text_or_none("description", options.as_slice());
    let author = interaction_author(interaction);
    CreateDeckRequest {
        tiph_deck: TiphDeck(parse_tiph_deck_id(deck.as_str()), DEFAULT_TIPH_DECK_VERSION),
        name,
        description,
        author_id: author.id.clone(),
        author_name: author.username.clone(),
    }
}

/// The deck to save for a request once its cards are decoded, or why it cannot be saved.
pub fn new_deck(request: CreateDeckRequest, deck_data: DeckData) -> (r: Result<Deck, DeckValidationError>)
    ensures
        match r {
            Ok(d) => validate_deck_spec(deck_data) is Ok && d.name == request.name && d.author_id
                == request.author_id && d.author_name == request.author_name && d.description
                == request.description && d.deck_data == deck_data && d.tiph_deck == Some(request.tiph_deck),
            Err(e) => validate_deck_spec(deck_data) == Err::<(), DeckValidationError>(e),
        },
{
    match validate_deck(&deck_data) {
        Err(e) => Err(e),
        Ok(()) => Ok(
            Deck {
                name: request.name,
                author_id: request.author_id,
                author_name: request.author_name,
                description: request.description,
                deck_data,
                tiph_deck: Some(request.tiph_deck),
            },
        ),
    }
}

/// What `validate_deck` answers for a deck.
pub open spec fn validate_deck_spec(d: DeckData) -> Result<(), DeckValidationError> {
    if !all_slots_filled(d.combat_page_ids@) {
        Err(DeckValidationError::MissingCombatPages)
    } else if d.keypage_id is None {
        Err(DeckValidationError::MissingKeypage)
    } else {
        Ok(())
    }
}

/// What changing a saved deck is asked for.
#[derive(Debug)]
pub struct UpdateDeckRequest {
    pub name: String,
    pub tiph_deck: Option<TiphDeck>,
    pub description: Option<String>,
    pub author_id: String,
}

/// The interactions that ask to change or delete a deck: they have options, the `name`
/// option is a deck value with a `#`, the `deck` and `description` options are text where
/// given, and the member's user is named.
pub open spec fn update_deck_accepts(i: DiscordInteraction) -> bool {
    &&& command_options(i) is Some
    &&& text_of(named_value(command_options(i)->Some_0, "name"@)) is Some
    &&& text_of(named_value(command_options(i)->Some_0, "name"@))->Some_0.contains('#')
    &&& is_text_or_absent(named_value(command_options(i)->Some_0, "deck"@))
    &&& is_text_or_absent(named_value(command_options(i)->Some_0, "description"@))
    &&& has_member_user(i)
}

/// The deck name in a deck value `author#name`: all that follows the first `#`.
pub open spec fn deck_name_in(value: Seq<char>) -> Seq<char> {
    value.skip(first_hash(value) + 1)
}

/// The name part of a deck value.
fn deck_name_of(value: &str) -> (name: String)
    requires
        value@.contains('#'),
    ensures
        name@ == deck_name_in(value@),
{
    match parse_deck_name_option(value) {
        Ok(k) => {
            proof {
                let i = choose|i: int|
                    0 <= i < value@.len() && value@[i] == '#' && (forall|j: int| 0 <= j < i ==> value@[j] != '#')
                        && k.0@ == value@.take(i) && k.1@ == value@.skip(i + 1);
                lemma_first_hash(value@, i);
            }
            k.1
        },
        Err(_) => {
            proof {
                let k = choose|k: int| 0 <= k < value@.len() && value@[k] == '#';
                assert(value@[k] == '#');
            }
            String::new()
        },
    }
}

/// Reads a request to change a deck: the deck's name from the `name` option, a new
/// Tiphereth code and a new description where given, and the author.
pub fn update_deck_request(interaction: &DiscordInteraction) -> (r: UpdateDeckRequest)
    requires
        update_deck_accepts(*interaction),
    ensures
        r.name@ == deck_name_in(text_of(named_value(command_options(*interaction)->Some_0, "name"@))->Some_0),
        match r.tiph_deck {
            Some(t) => t.1 == DEFAULT_TIPH_DECK_VERSION && t.0@ == tiph_deck_id_spec(
                text_of(named_value(command_options(*interaction)->Some_0, "deck"@))->Some_0,
            ),
            None => named_value(command_options(*interaction)->Some_0, "deck"@) is None,
        },
        match r.description {
            Some(d) => text_of(named_value(command_options(*interaction)->Some_0, "description"@)) == Some(d@),
            None => named_value(command_options(*interaction)->Some_0, "description"@) is None,
        },
        r.author_id@ == author_of(*interaction)->Some_0.id@,
{
    let options = options_of(interaction);
    let value = match option_text("name", options.as_slice()) {
        Some(s) => s,
        None => vstd::pervasive::unreached(),
    };
    let name = deck_name_of(value.as_str());
    let tiph_deck = match option_text("deck", options.as_slice()) {
        Some(s) => Some(TiphDeck(parse_tiph_deck_id(s.as_str()), DEFAULT_TIPH_DECK_VERSION)),
        None => None,
    };
    let description = option_text("description", options.as_slice());
    let author = interaction_author(interaction);
    UpdateDeckRequest { name, tiph_deck, description, author_id: author.id.clone() }
}

/// A saved deck with the changes asked for: a new description where one is given, and the
/// newly decoded cards where a new code was given.
pub fn apply_deck_update(deck: Deck, description: Option<String>, deck_data: Option<DeckData>) -> (d: Deck)
    ensures
        d.name == deck.name,
        d.author_id == deck.author_id,
        d.author_name == deck.author_name,
        d.tiph_deck == deck.tiph_deck,
        d.description == (if description is Some { description } else { deck.description }),
        d.deck_data == (match deck_data {
            Some(x) => x,
            None => deck.deck_data,
        }),
{
    let mut deck = deck;
    if description.is_some() {
        deck.description = description;
    }
    match deck_data {
        Some(x) => {
            deck.deck_data = x;
        },
        None => {},
    }
    deck
}

/// What deleting a deck is asked for: the deck's name and its author.
#[derive(Debug)]
pub struct DeleteDeckRequest {
    pub name: String,
    pub author_id: String,
}

/// Reads a request to delete a deck.
pub fn delete_deck_request(interaction: &DiscordInteraction) -> (r: DeleteDeckRequest)
    requires
        command_options(*interaction) is Some,
        text_of(named_value(command_options(*interaction)->Some_0, "name"@)) is Some,
        text_of(named_value(command_options(*interaction)->Some_0, "name"@))->Some_0.contains('#'),
        has_member_user(*interaction),
    ensures
        r.name@ == deck_name_in(text_of(named_value(command_options(*interaction)->Some_0, "name"@))->Some_0),
        r.author_id@ == author_of(*interaction)->Some_0.id@,
{
    let options = options_of(interaction);
    let value = match text_or_none("name", options.as_slice()) {
        Some(s) => s,
        None => vstd::pervasive::unreached(),
    };
    let name = deck_name_of(value.as_str());
    let author = interaction_author(interaction);
    DeleteDeckRequest { name, author_id: author.id.clone() }
}

/// What showing a deck is asked for: its author and name, and whether to answer privately.
#[derive(Debug)]
pub struct ReadDeckRequest {
    pub author_id: String,
    pub name: String,
    pub is_private: bool,
}

/// Reads a request to show a deck.
pub fn read_deck_request(interaction: &DiscordInteraction) -> (r: ReadDeckRequest)
    requires
        command_options(*interaction) is Some,
        text_of(named_value(command_options(*interaction)->Some_0, "name"@)) is Some,
        text_of(named_value(command_options(*interaction)->Some_0, "name"@))->Some_0.contains('#'),
        is_bool_or_absent(named_value(command_options(*interaction)->Some_0, "private"@)),
    ensures
        r.author_id@ == text_of(named_value(command_options(*interaction)->Some_0, "name"@))->Some_0.take(
            first_hash(text_of(named_value(command_options(*interaction)->Some_0, "name"@))->Some_0),
        ),
        r.name@ == deck_name_in(text_of(named_value(command_options(*interaction)->Some_0, "name"@))->Some_0),
        r.is_private == (named_value(command_options(*interaction)->Some_0, "private"@) == Some(
            DiscordInteractionOptionValue::Bool(true),
        )),
{
    let options = options_of(interaction);
    let value = match text_or_none("name", options.as_slice()) {
        Some(s) => s,
        None => vstd::pervasive::unreached(),
    };
    let is_private = match get_option_value("private", options.as_slice()) {
        Some(DiscordInteractionOptionValue::Bool(b)) => *b,
        _ => false,
    };
    match parse_deck_name_option(value.as_str()) {
        Ok(k) => {
            proof {
                let i = choose|i: int|
                    0 <= i < value@.len() && value@[i] == '#' && (forall|j: int| 0 <= j < i ==> value@[j] != '#')
                        && k.0@ == value@.take(i) && k.1@ == value@.skip(i + 1);
                lemma_first_hash(value@, i);
            }
            ReadDeckRequest { author_id: k.0, name: k.1, is_private }
        },
        Err(_) => {
            proof {
                let k = choose|k: int| 0 <= k < value@.len() && value@[k] == '#';
                assert(value@[k] == '#');
            }
            ReadDeckRequest { author_id: String::new(), name: String::new(), is_private }
        },
    }
}

/// An embed that holds only `description`, in the default colour.
pub open spec fn is_notice_embed(e: DiscordEmbed, description: Seq<char>) -> bool {
    &&& e.title is None
    &&& e.description is Some
    &&& e.description->Some_0@ == description
    &&& e.color == Some(color_value(DiscordEmbedColors::Default))
    &&& e.image is None
    &&& e.footer is None
    &&& e.author is None
    &&& e.url is None
    &&& e.fields is None
}

/// A message that only its reader sees, holding one embed with `description` in the
/// default colour and allowing no mentions.
pub open spec fn is_private_notice(r: MessageResponse, description: Seq<char>) -> bool {
    match r.data {
        Some(m) => {
            &&& r.kind == DiscordInteractionResponseType::ChannelMessageWithSource
            &&& m.content is None
            &&& m.flags == Some(EPHEMERAL_FLAG)
            &&& m.allowed_mentions is Some
            &&& m.allowed_mentions->Some_0.parse@.len() == 0
            &&& m.embeds is Some
            &&& m.embeds->Some_0@.len() == 1
            &&& is_notice_embed(m.embeds->Some_0@[0], description)
        },
        None => false,
    }
}

/// A private notice to the reader, such as an error message or a confirmation.
pub fn private_notice(description: String) -> (r: MessageResponse)
    ensures
        is_private_notice(r, description@),
{
    let embed = DiscordEmbed {
        title: None,
        description: Some(description),
        color: Some(DiscordEmbedColors::Default.value()),
        image: None,
        footer: None,
        author: None,
        url: None,
        fields: None,
    };
    let embeds = vec![embed];
    MessageResponse {
        kind: DiscordInteractionResponseType::ChannelMessageWithSource,
        data: Some(
            DiscordInteractionResponseMessage {
                allowed_mentions: Some(AllowedMentions { parse: Vec::new() }),
                content: None,
                embeds: Some(embeds),
                flags: Some(EPHEMERAL_FLAG),
            },
        ),
    }
}

/// The answer that reports an error, given the error's message.
pub fn build_error_message_response(message: String) -> (r: MessageResponse)
    ensures
        is_private_notice(r, message@),
{
    private_notice(message)
}

} // verus!
verus! {

/// The address of a deck's page on Tiphereth.
pub open spec fn tiph_deck_url_of(code: Seq<char>) -> Seq<char> {
    "https://tiphereth.zasz.su/u/decks/"@ + code + "/"@
}

/// The address of a deck's preview image in the bot's bucket.
pub open spec fn deck_preview_url(bucket: Seq<char>, thumb_name: Seq<char>) -> Seq<char> {
    "https://"@ + bucket + ".s3.amazonaws.com/deck_thumbnails/"@ + thumb_name + ".png"@
}

/// The address of a user's avatar.
pub open spec fn avatar_url(user_id: Seq<char>, avatar: Seq<char>) -> Seq<char> {
    "https://cdn.discordapp.com/avatars/"@ + user_id + "/"@ + avatar + ".png"@
}

/// The address of a deck's page on Tiphereth, where the deck has a code.
pub fn tiph_url(deck: &Deck) -> (u: Option<String>)
    ensures
        match u {
            Some(s) => deck.tiph_deck is Some && s@ == tiph_deck_url_of(deck.tiph_deck->Some_0.0@),
            None => deck.tiph_deck is None,
        },
{
    match &deck.tiph_deck {
        Some(t) => {
            let mut out: Vec<char> = Vec::new();
            crate::text::append_str(&mut out, "https://tiphereth.zasz.su/u/decks/");
            crate::text::append_str(&mut out, t.0.as_str());
            crate::text::append_str(&mut out, "/");
            Some(crate::text::string_of(&out))
        },
        None => None,
    }
}

/// The address of a deck's preview image, named after its combat pages.
pub fn preview_image_url(bucket: &str, thumb_name: &str) -> (u: String)
    ensures
        u@ == deck_preview_url(bucket@, thumb_name@),
{
    let mut out: Vec<char> = Vec::new();
    crate::text::append_str(&mut out, "https://");
    crate::text::append_str(&mut out, bucket);
    crate::text::append_str(&mut out, ".s3.amazonaws.com/deck_thumbnails/");
    crate::text::append_str(&mut out, thumb_name);
    crate::text::append_str(&mut out, ".png");
    crate::text::string_of(&out)
}

/// How a deck's author is shown: `@` and the user's name when the user was found, else
/// the author's id; and the user's avatar, when found.
pub fn deck_author_display(author_id: &str, user: Option<&DiscordUser>) -> (r: (String, Option<String>))
    ensures
        match user {
            Some(u) => r.0@ == seq!['@'] + u.username@ && r.1 is Some && r.1->Some_0@ == avatar_url(author_id@, u.avatar@),
            None => r.0@ == author_id@ && r.1 is None,
        },
{
    match user {
        Some(u) => {
            let mut name: Vec<char> = Vec::new();
            name.push('@');
            crate::text::append_str(&mut name, u.username.as_str());
            let mut avatar: Vec<char> = Vec::new();
            crate::text::append_str(&mut avatar, "https://cdn.discordapp.com/avatars/");
            crate::text::append_str(&mut avatar, author_id);
            crate::text::append_str(&mut avatar, "/");
            crate::text::append_str(&mut avatar, u.avatar.as_str());
            crate::text::append_str(&mut avatar, ".png");
            (crate::text::string_of(&name), Some(crate::text::string_of(&avatar)))
        },
        None => (author_id.to_owned(), None),
    }
}

/// A name looked up in the card's language, or `???` where the lookup found none.
pub open spec fn name_or_unknown(n: Option<&str>) -> Seq<char> {
    match n {
        Some(x) => x@,
        None => "???"@,
    }
}

/// Names looked up, each as `name_or_unknown` writes it.
pub open spec fn names_or_unknown(ns: Seq<Option<&str>>) -> Seq<Seq<char>> {
    ns.map_values(|n: Option<&str>| name_or_unknown(n))
}

/// Counts as plain values.
pub open spec fn owned_count_view(v: Seq<(String, i32)>) -> Seq<(Seq<char>, nat)> {
    v.map_values(|e: (String, i32)| (e.0@, e.1 as nat))
}

/// The embed of a saved deck, as the bot decides it. Its fields are the key page's name
/// (header `read_deck_keypage_header`), the passives' names as a list where the deck has
/// passives (header `read_deck_passives_header`), and one translated line per distinct
/// combat page with its count (message `read_deck_combat_page_count`, header
/// `read_deck_combat_pages_header`), all inline.
#[derive(Debug)]
pub struct DeckPlan {
    pub title: String,
    pub description: Option<String>,
    pub color: i32,
    pub image_url: String,
    pub author_name: String,
    pub author_icon_url: Option<String>,
    pub url: Option<String>,
    pub key_page: String,
    pub passives: Option<String>,
    pub combat_pages: Vec<(String, i32)>,
}

fn resolve_names<'a>(ns: &[Option<&'a str>]) -> (r: Vec<&'a str>)
    ensures
        r.len() == ns.len(),
        str_views(r@) == names_or_unknown(ns@),
{
    let mut out: Vec<&str> = Vec::new();
    let mut i: usize = 0;
    while i < ns.len()
        invariant
            i <= ns.len(),
            out.len() == i,
            str_views(out@) == names_or_unknown(ns@.take(i as int)),
        decreases ns.len() - i,
    {
        let n = match ns[i] {
            Some(x) => x,
            None => "???",
        };
        assert(n@ == name_or_unknown(ns@[i as int]));
        let ghost before = out@;
        out.push(n);
        assert(ns@.take(i + 1) =~= ns@.take(i as int).push(ns@[i as int]));
        assert(out@ =~= before.push(n));
        assert(str_views(out@) =~= str_views(before).push(n@));
        assert(names_or_unknown(ns@.take(i + 1)) =~= names_or_unknown(ns@.take(i as int)).push(name_or_unknown(ns@[i as int])));
        i = i + 1;
    }
    assert(ns@.take(ns.len() as int) =~= ns@);
    out
}

fn owned_names(ns: &Vec<&str>) -> (r: Vec<String>)
    ensures
        views(r@) == str_views(ns@),
{
    let mut out: Vec<String> = Vec::new();
    let mut i: usize = 0;
    while i < ns.len()
        invariant
            i <= ns.len(),
            views(out@) == str_views(ns@.take(i as int)),
        decreases ns.len() - i,
    {
        let ghost before = out@;
        let t = ns[i].to_string();
        out.push(t);
        assert(ns@.take(i + 1) =~= ns@.take(i as int).push(ns@[i as int]));
        assert(views(out@) =~= views(before).push(t@));
        assert(str_views(ns@.take(i + 1)) =~= str_views(ns@.take(i as int)).push(ns@[i as int]@));
        i = i + 1;
    }
    assert(ns@.take(ns.len() as int) =~= ns@);
    out
}

fn owned_counts(cs: &Vec<(&str, i32)>) -> (r: Vec<(String, i32)>)
    ensures
        owned_count_view(r@) == count_view(cs@),
{
    let mut out: Vec<(String, i32)> = Vec::new();
    let mut i: usize = 0;
    while i < cs.len()
        invariant
            i <= cs.len(),
            owned_count_view(out@) == count_view(cs@.take(i as int)),
        decreases cs.len() - i,
    {
        let ghost before = out@;
        let t = cs[i].0.to_string();
        out.push((t, cs[i].1));
        assert(cs@.take(i + 1) =~= cs@.take(i as int).push(cs@[i as int]));
        assert(owned_count_view(out@) =~= owned_count_view(before).push((t@, cs@[i as int].1 as nat)));
        assert(count_view(cs@.take(i + 1)) =~= count_view(cs@.take(i as int)).push((cs@[i as int].0@, cs@[i as int].1 as nat)));
        i = i + 1;
    }
    assert(cs@.take(cs.len() as int) =~= cs@);
    out
}

/// Decides the embed of a saved deck from what was looked up for it: the author's user where
/// found, the key page's name, and the name of each passive and each combat page slot in
/// the card's language, where found; `bucket` is the bot's bucket of pictures.
pub fn deck_plan(
    deck: &Deck,
    user: Option<&DiscordUser>,
    key_page_name: Option<&str>,
    passive_names: &[Option<&str>],
    combat_page_names: &[Option<&str>],
    bucket: &str,
) -> (plan: DeckPlan)
    requires
        combat_page_names.len() <= i32::MAX,
    ensures
        plan.title@ == deck.name@,
        plan.description == deck.description,
        plan.color == color_value(DiscordEmbedColors::Default),
        plan.image_url@ == deck_preview_url(
            bucket@,
            digits(xxh3_64_spec(vstd::utf8::encode_utf8(thumb_key(deck.deck_data.combat_page_ids@))) as nat, 16),
        ),
        match user {
            Some(u) => plan.author_name@ == seq!['@'] + u.username@ && plan.author_icon_url is Some
                && plan.author_icon_url->Some_0@ == avatar_url(deck.author_id@, u.avatar@),
            None => plan.author_name@ == deck.author_id@ && plan.author_icon_url is None,
        },
        match plan.url {
            Some(s) => deck.tiph_deck is Some && s@ == tiph_deck_url_of(deck.tiph_deck->Some_0.0@),
            None => deck.tiph_deck is None,
        },
        plan.key_page@ == match key_page_name {
            Some(n) => n@,
            None => seq!['-'],
        },
        match plan.passives {
            Some(p) => passive_names.len() > 0 && p@ == bullet_list(names_or_unknown(passive_names@)),
            None => passive_names.len() == 0,
        },
        owned_count_view(plan.combat_pages@) == tally(names_or_unknown(combat_page_names@)),
{
    let thumb = generate_thumb_name(&deck.deck_data.combat_page_ids);
    let image_url = preview_image_url(bucket, thumb.as_str());
    let (author_name, author_icon_url) = deck_author_display(deck.author_id.as_str(), user);
    let key_page = match key_page_name {
        Some(n) => n.to_string(),
        None => {
            let mut dash: Vec<char> = Vec::new();
            dash.push('-');
            string_of(&dash)
        },
    };
    let passives = if passive_names.len() > 0 {
        let names = owned_names(&resolve_names(passive_names));
        Some(format_to_list(names.as_slice()))
    } else {
        None
    };
    let pages = resolve_names(combat_page_names);
    let counts = aggregate_count(pages.as_slice());
    DeckPlan {
        title: deck.name.clone(),
        description: deck.description.clone(),
        color: DiscordEmbedColors::Default.value(),
        image_url,
        author_name,
        author_icon_url,
        url: tiph_url(deck),
        key_page,
        passives,
        combat_pages: owned_counts(&counts),
    }
}

/// Which choices a deck listing offers while it is typed: key pages when the `keypage`
/// option is being typed, decks by name otherwise.
#[derive(Debug, Clone, Copy, PartialEq, Eq, Structural)]
pub enum DeckChoices {
    Keypages,
    DecksByName,
}

/// The choices to offer for the option being typed, named `focused`.
pub fn list_deck_choices(focused: &str) -> (c: DeckChoices)
    ensures
        c == (if focused@ == "keypage"@ { DeckChoices::Keypages } else { DeckChoices::DecksByName }),
{
    if crate::text::str_eq(focused, "keypage") {
        DeckChoices::Keypages
    } else {
        DeckChoices::DecksByName
    }
}

/// Whether listing one's own decks offers choices for the option being typed: only while
/// the deck's name is typed.
pub fn list_my_decks_offers(focused: &str) -> (b: bool)
    ensures
        b == (focused@ == "name"@),
{
    crate::text::str_eq(focused, "name")
}


/// The Tiphereth code of a deck read from a row of a deck sheet: the code, at the version
/// the sheet is written for.
pub fn quickfill_tiph_deck(deck_code: &str) -> (t: TiphDeck)
    ensures
        t.0@ == deck_code@,
        t.1 == 1,
{
    TiphDeck(deck_code.to_owned(), 1)
}

/// A deck from a row of a deck sheet, saved under the given user: its name and optional
/// description from the row, its cards as its Tiphereth code decodes them, and the code.
pub fn quickfill_deck(
    deck_name: &str,
    description: Option<&str>,
    user_id: &str,
    username: &str,
    deck_data: DeckData,
    tiph_deck: TiphDeck,
) -> (d: Deck)
    ensures
        d.name@ == deck_name@,
        d.author_id@ == user_id@,
        d.author_name@ == username@,
        d.description matches Some(x) ==> description matches Some(y) && x@ == y@,
        d.description is None <==> description is None,
        d.deck_data == deck_data,
        d.tiph_deck == Some(tiph_deck),
{
    Deck {
        name: deck_name.to_owned(),
        author_id: user_id.to_owned(),
        author_name: username.to_owned(),
        description: match description {
            Some(x) => Some(x.to_owned()),
            None => None,
        },
        deck_data,
        tiph_deck: Some(tiph_deck),
    }
}


/// What saving a deck does next, once its Tiphereth code has been decoded.
#[derive(Debug)]
pub enum DeckStep {
    /// Make the deck's thumbnail from its combat pages, then store it; a stored deck under
    /// the same key is replaced only when `overwrite` is set.
    Store { deck: Deck, overwrite: bool },
    /// Answer privately with the message of this key.
    Reply(&'static str),
}

/// The step of saving a new deck after its code is decoded: a code that cannot be decoded
/// and an incomplete deck are answered with their error message; a complete deck is stored
/// without replacing a deck of the same key.
pub fn create_deck_decoded(request: CreateDeckRequest, decoded: Option<DeckData>) -> (s: DeckStep)
    ensures
        match decoded {
            None => s matches DeckStep::Reply(k) && k@ == "cant_parse_deck_error_message"@,
            Some(d) => match validate_deck_spec(d) {
                Err(e) => s matches DeckStep::Reply(k) && k@ == error_key(e),
                Ok(_) => s matches DeckStep::Store { deck, overwrite } && !overwrite && deck.name == request.name
                    && deck.author_id == request.author_id && deck.author_name == request.author_name
                    && deck.description == request.description && deck.deck_data == d && deck.tiph_deck == Some(
                    request.tiph_deck,
                ),
            },
        },
{
    match decoded {
        None => DeckStep::Reply("cant_parse_deck_error_message"),
        Some(d) => match new_deck(request, d) {
            Ok(deck) => DeckStep::Store { deck, overwrite: false },
            Err(e) => DeckStep::Reply(e.as_error_key()),
        },
    }
}

/// The step of changing a saved deck once its new code, where one was given, is decoded:
/// the deck with the new description and cards, stored in place of the old one.
pub fn update_deck_decoded(deck: Deck, description: Option<String>, decoded: Option<DeckData>) -> (s: DeckStep)
    ensures
        s matches DeckStep::Store { deck: d, overwrite } && overwrite && d.name == deck.name && d.author_id
            == deck.author_id && d.author_name == deck.author_name && d.tiph_deck == deck.tiph_deck
            && d.description == (if description is Some { description } else { deck.description })
            && d.deck_data == (if decoded is Some { decoded->Some_0 } else { deck.deck_data }),
{
    DeckStep::Store { deck: apply_deck_update(deck, description, decoded), overwrite: true }
}

/// The message key that answers a deck command once the store has answered: the command's
/// success message, or the generic error.
pub fn stored_reply(stored: bool, success_key: &'static str) -> (k: &'static str)
    ensures
        k@ == (if stored { success_key@ } else { "generic_error_message"@ }),
{
    if stored {
        success_key
    } else {
        "generic_error_message"
    }
}

} // verus!
