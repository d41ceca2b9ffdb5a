use vstd::prelude::*;

use crate::binahbot::InteractionTtl;
use crate::deck_commands::{author_of, has_member_user, interaction_author};
use crate::discord::{
    DiscordApplicationCommandInteractionData, DiscordInteraction, DiscordInteractionData, DiscordInteractionType,
    DiscordMessageComponentInteractionData,
};
use crate::text::{chars_of, has_prefix, str_eq};
use crate::utils::DELETE_BUTTON_CUSTOM_ID;

verus! {

/// What answers an interaction.
#[derive(Debug, Clone, Copy, PartialEq, Eq, Structural)]
pub enum Route {
    Pong,
    LcCommand,
    LorCommand,
    CreateDeck,
    ReadDeck,
    UpdateDeck,
    DeleteDeck,
    About,
    Rollcalc,
    LorAutocomplete,
    ListDeck,
    ListMyDecks,
    LcAutocomplete,
    DeleteButton,
    LcButton,
}

/// What answers a press of the button with id `custom_id`: the delete button, or one of an
/// encyclopedia entry's page buttons.
pub open spec fn button_route(custom_id: Seq<char>) -> Option<Route> {
    if custom_id == DELETE_BUTTON_CUSTOM_ID@ {
        Some(Route::DeleteButton)
    } else if 3 <= custom_id.len() && custom_id.take(3) == "lc#"@ {
        Some(Route::LcButton)
    } else {
        None
    }
}

/// The command that answers a command named `name`.
pub open spec fn command_route(name: Seq<char>) -> Option<Route> {
    if name == "lc"@ {
        Some(Route::LcCommand)
    } else if name == "lor"@ {
        Some(Route::LorCommand)
    } else if name == "createdeck"@ {
        Some(Route::CreateDeck)
    } else if name == "deck"@ {
        Some(Route::ReadDeck)
    } else if name == "updatedeck"@ {
        Some(Route::UpdateDeck)
    } else if name == "deletedeck"@ {
        Some(Route::DeleteDeck)
    } else if name == "about"@ {
        Some(Route::About)
    } else if name == "rollcalc"@ {
        Some(Route::Rollcalc)
    } else {
        None
    }
}

/// The completion that answers a command named `name` while it is typed.
pub open spec fn autocomplete_route(name: Seq<char>) -> Option<Route> {
    if name == "lor"@ {
        Some(Route::LorAutocomplete)
    } else if name == "deck"@ {
        Some(Route::ListDeck)
    } else if name == "updatedeck"@ || name == "deletedeck"@ {
        Some(Route::ListMyDecks)
    } else if name == "lc"@ {
        Some(Route::LcAutocomplete)
    } else {
        None
    }
}

/// What answers an interaction: a ping is answered by a pong, a command and its completion
/// by the command's name, a button press by the button's id; nothing else has an answer here.
pub open spec fn route_spec(i: DiscordInteraction) -> Option<Route> {
    match i.kind {
        DiscordInteractionType::Ping => Some(Route::Pong),
        DiscordInteractionType::ApplicationCommand => match i.data {
            Some(DiscordInteractionData::ApplicationCommand(d)) => command_route(d.name@),
            _ => None,
        },
        DiscordInteractionType::ApplicationCommandAutocomplete => match i.data {
            Some(DiscordInteractionData::ApplicationCommand(d)) => autocomplete_route(d.name@),
            _ => None,
        },
        DiscordInteractionType::MessageComponent => match i.data {
            Some(DiscordInteractionData::MessageComponent(d)) => button_route(d.custom_id@),
            _ => None,
        },
        _ => None,
    }
}

/// The command names, character by character.
proof fn lemma_command_names()
    ensures
        "lc"@ == seq!['l', 'c'],
        "lor"@ == seq!['l', 'o', 'r'],
        "createdeck"@ == seq!['c', 'r', 'e', 'a', 't', 'e', 'd', 'e', 'c', 'k'],
        "deck"@ == seq!['d', 'e', 'c', 'k'],
        "updatedeck"@ == seq!['u', 'p', 'd', 'a', 't', 'e', 'd', 'e', 'c', 'k'],
        "deletedeck"@ == seq!['d', 'e', 'l', 'e', 't', 'e', 'd', 'e', 'c', 'k'],
        "about"@ == seq!['a', 'b', 'o', 'u', 't'],
        "rollcalc"@ == seq!['r', 'o', 'l', 'l', 'c', 'a', 'l', 'c'],
{
    reveal_strlit("lc");
    assert("lc"@ =~= seq!['l', 'c']);
    reveal_strlit("lor");
    assert("lor"@ =~= seq!['l', 'o', 'r']);
    reveal_strlit("createdeck");
    assert("createdeck"@ =~= seq!['c', 'r', 'e', 'a', 't', 'e', 'd', 'e', 'c', 'k']);
    reveal_strlit("deck");
    assert("deck"@ =~= seq!['d', 'e', 'c', 'k']);
    reveal_strlit("updatedeck");
    assert("updatedeck"@ =~= seq!['u', 'p', 'd', 'a', 't', 'e', 'd', 'e', 'c', 'k']);
    reveal_strlit("deletedeck");
    assert("deletedeck"@ =~= seq!['d', 'e', 'l', 'e', 't', 'e', 'd', 'e', 'c', 'k']);
    reveal_strlit("about");
    assert("about"@ =~= seq!['a', 'b', 'o', 'u', 't']);
    reveal_strlit("rollcalc");
    assert("rollcalc"@ =~= seq!['r', 'o', 'l', 'l', 'c', 'a', 'l', 'c']);
}

/// Each command is answered by the command of its own name: `lc` by the encyclopedia
/// command, `lor` by the card command, and so on for the eight commands, so that commands
/// with different names are answered differently; any other name has no answer.
pub proof fn lemma_commands_route_by_their_own_name(i: DiscordInteraction, d: DiscordApplicationCommandInteractionData)
    requires
        i.kind == DiscordInteractionType::ApplicationCommand,
        i.data == Some(DiscordInteractionData::ApplicationCommand(d)),
    ensures
        d.name@ == "lc"@ ==> route_spec(i) == Some(Route::LcCommand),
        d.name@ == "lor"@ ==> route_spec(i) == Some(Route::LorCommand),
        d.name@ == "createdeck"@ ==> route_spec(i) == Some(Route::CreateDeck),
        d.name@ == "deck"@ ==> route_spec(i) == Some(Route::ReadDeck),
        d.name@ == "updatedeck"@ ==> route_spec(i) == Some(Route::UpdateDeck),
        d.name@ == "deletedeck"@ ==> route_spec(i) == Some(Route::DeleteDeck),
        d.name@ == "about"@ ==> route_spec(i) == Some(Route::About),
        d.name@ == "rollcalc"@ ==> route_spec(i) == Some(Route::Rollcalc),
        !(d.name@ == "lc"@ || d.name@ == "lor"@ || d.name@ == "createdeck"@ || d.name@ == "deck"@
            || d.name@ == "updatedeck"@ || d.name@ == "deletedeck"@ || d.name@ == "about"@
            || d.name@ == "rollcalc"@) ==> route_spec(i) is None,
{
    lemma_command_names();
}

/// Each command's completion is answered by the listing for that command: card names for
/// `lor`, decks for `deck`, the user's own decks for `updatedeck` and `deletedeck`,
/// encyclopedia entries for `lc`; no other command completes.
pub proof fn lemma_completions_route_by_their_own_name(i: DiscordInteraction, d: DiscordApplicationCommandInteractionData)
    requires
        i.kind == DiscordInteractionType::ApplicationCommandAutocomplete,
        i.data == Some(DiscordInteractionData::ApplicationCommand(d)),
    ensures
        d.name@ == "lor"@ ==> route_spec(i) == Some(Route::LorAutocomplete),
        d.name@ == "deck"@ ==> route_spec(i) == Some(Route::ListDeck),
        d.name@ == "updatedeck"@ ==> route_spec(i) == Some(Route::ListMyDecks),
        d.name@ == "deletedeck"@ ==> route_spec(i) == Some(Route::ListMyDecks),
        d.name@ == "lc"@ ==> route_spec(i) == Some(Route::LcAutocomplete),
        !(d.name@ == "lor"@ || d.name@ == "deck"@ || d.name@ == "updatedeck"@ || d.name@ == "deletedeck"@
            || d.name@ == "lc"@) ==> route_spec(i) is None,
{
    lemma_command_names();
}

/// A press of the delete button is answered by deleting, a press of one of an encyclopedia
/// entry's buttons by turning its page; no other button has an answer.
pub proof fn lemma_buttons_route_by_their_id(i: DiscordInteraction, d: DiscordMessageComponentInteractionData)
    requires
        i.kind == DiscordInteractionType::MessageComponent,
        i.data == Some(DiscordInteractionData::MessageComponent(d)),
    ensures
        d.custom_id@ == DELETE_BUTTON_CUSTOM_ID@ ==> route_spec(i) == Some(Route::DeleteButton),
        d.custom_id@.len() >= 3 && d.custom_id@.take(3) == seq!['l', 'c', '#'] ==> route_spec(i) == Some(Route::LcButton),
        d.custom_id@ != DELETE_BUTTON_CUSTOM_ID@ && !(d.custom_id@.len() >= 3 && d.custom_id@.take(3) == seq!['l', 'c', '#'])
            ==> route_spec(i) is None,
{
    reveal_strlit("delete");
    reveal_strlit("lc#");
    assert(DELETE_BUTTON_CUSTOM_ID@ == "delete"@);
    assert("lc#"@ =~= seq!['l', 'c', '#']);
    if d.custom_id@ == DELETE_BUTTON_CUSTOM_ID@ {
        assert(d.custom_id@[0] == 'd');
    }
}

/// Decides what answers an interaction.
pub fn route(interaction: &DiscordInteraction) -> (r: Option<Route>)
    ensures
        r == route_spec(*interaction),
{
    match interaction.kind {
        DiscordInteractionType::Ping => Some(Route::Pong),
        DiscordInteractionType::ApplicationCommand => match &interaction.data {
            Some(DiscordInteractionData::ApplicationCommand(d)) => {
                let n = d.name.as_str();
                if str_eq(n, "lc") {
                    Some(Route::LcCommand)
                } else if str_eq(n, "lor") {
                    Some(Route::LorCommand)
                } else if str_eq(n, "createdeck") {
                    Some(Route::CreateDeck)
                } else if str_eq(n, "deck") {
                    Some(Route::ReadDeck)
                } else if str_eq(n, "updatedeck") {
                    Some(Route::UpdateDeck)
                } else if str_eq(n, "deletedeck") {
                    Some(Route::DeleteDeck)
                } else if str_eq(n, "about") {
                    Some(Route::About)
                } else if str_eq(n, "rollcalc") {
                    Some(Route::Rollcalc)
                } else {
                    None
                }
            },
            _ => None,
        },
        DiscordInteractionType::ApplicationCommandAutocomplete => match &interaction.data {
            Some(DiscordInteractionData::ApplicationCommand(d)) => {
                let n = d.name.as_str();
                if str_eq(n, "lor") {
                    Some(Route::LorAutocomplete)
                } else if str_eq(n, "deck") {
                    Some(Route::ListDeck)
                } else if str_eq(n, "updatedeck") || str_eq(n, "deletedeck") {
                    Some(Route::ListMyDecks)
                } else if str_eq(n, "lc") {
                    Some(Route::LcAutocomplete)
                } else {
                    None
                }
            },
            _ => None,
        },
        DiscordInteractionType::MessageComponent => match &interaction.data {
            Some(DiscordInteractionData::MessageComponent(d)) => {
                let id = d.custom_id.as_str();
                if str_eq(id, DELETE_BUTTON_CUSTOM_ID) {
                    Some(Route::DeleteButton)
                } else if is_lc_button(id) {
                    Some(Route::LcButton)
                } else {
                    None
                }
            },
            _ => None,
        },
        _ => None,
    }
}

/// Whether a button's id is one of an encyclopedia entry's: it begins with `lc#`.
pub fn is_lc_button(custom_id: &str) -> (b: bool)
    ensures
        b == (3 <= custom_id@.len() && custom_id@.take(3) == "lc#"@),
{
    let id = chars_of(custom_id);
    let prefix = chars_of("lc#");
    proof {
        reveal_strlit("lc#");
    }
    assert(prefix@.len() == 3);
    has_prefix(&id, &prefix)
}

/// Whether the bot remembers who made an interaction, so that its answer can later be
/// deleted by them: commands and button presses are remembered.
pub open spec fn remembers(kind: DiscordInteractionType) -> bool {
    kind == DiscordInteractionType::ApplicationCommand || kind == DiscordInteractionType::MessageComponent
}

/// The record kept of an interaction made at `now`, in seconds since the epoch, or none
/// for the kinds that are not remembered.
pub fn interaction_ttl(interaction: &DiscordInteraction, now: u64) -> (r: Option<InteractionTtl>)
    requires
        remembers(interaction.kind) ==> has_member_user(*interaction),
    ensures
        match r {
            Some(t) => remembers(interaction.kind) && t.interaction_id@ == interaction.id@ && t.token@
                == interaction.token@ && t.ttl == now && t.original_user_id@ == author_of(*interaction)->Some_0.id@,
            None => !remembers(interaction.kind),
        },
{
    if interaction.kind != DiscordInteractionType::ApplicationCommand && interaction.kind
        != DiscordInteractionType::MessageComponent {
        return None;
    }
    let author = interaction_author(interaction);
    Some(
        InteractionTtl {
            interaction_id: interaction.id.clone(),
            ttl: now,
            token: interaction.token.clone(),
            original_user_id: author.id.clone(),
        },
    )
}

/// Whether pressing a message's delete button deletes it: only when the message's
/// interaction is remembered and the one pressing made it.
pub fn may_delete(user_id: &str, record: &Option<InteractionTtl>) -> (b: bool)
    ensures
        b == (match record {
            Some(t) => t.original_user_id@ == user_id@,
            None => false,
        }),
{
    match record {
        Some(t) => str_eq(t.original_user_id.as_str(), user_id),
        None => false,
    }
}

} // verus!
