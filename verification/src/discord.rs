use std::collections::HashMap;

use vstd::prelude::*;


verus! {

/// An embed of a message.
#[derive(Debug)]
pub struct DiscordEmbed {
    pub title: Option<String>,
    pub description: Option<String>,
    pub color: Option<i32>,
    pub image: Option<DiscordEmbedImage>,
    pub footer: Option<DiscordEmbedFooter>,
    pub author: Option<DiscordEmbedAuthor>,
    pub url: Option<String>,
    pub fields: Option<Vec<DiscordEmbedFields>>,
}

/// The image of an embed.
#[derive(Debug)]
pub struct DiscordEmbedImage {
    pub url: String,
}

/// The footer of an embed.
#[derive(Debug)]
pub struct DiscordEmbedFooter {
    pub text: String,
    pub icon_url: Option<String>,
}

/// The author of an embed.
#[derive(Debug)]
pub struct DiscordEmbedAuthor {
    pub name: String,
    pub url: Option<String>,
    pub icon_url: Option<String>,
}

/// A field of an embed.
#[derive(Debug)]
pub struct DiscordEmbedFields {
    pub name: String,
    pub value: String,
    pub inline: Option<bool>,
}

/// An interaction sent by Discord, with the parts the bot reads.
#[derive(Debug)]
pub struct DiscordInteraction {
    pub id: String,
    pub application_id: String,
    pub kind: DiscordInteractionType,
    pub data: Option<DiscordInteractionData>,
    pub channel_id: Option<String>,
    pub member: Option<DiscordGuildMember>,
    pub user: Option<DiscordUser>,
    pub token: String,
    pub locale: Option<String>,
    pub guild_locale: Option<String>,
}

/// The kind of an interaction.
#[derive(Debug, PartialEq, Eq, Structural, Clone, Copy)]
pub enum DiscordInteractionType {
    Ping,
    ApplicationCommand,
    MessageComponent,
    ApplicationCommandAutocomplete,
    ModalSubmit,
}

impl DiscordInteractionType {
    /// The number Discord uses for this kind.
    pub fn value(&self) -> (v: i32)
        ensures
            v == match self {
                DiscordInteractionType::Ping => 1i32,
                DiscordInteractionType::ApplicationCommand => 2,
                DiscordInteractionType::MessageComponent => 3,
                DiscordInteractionType::ApplicationCommandAutocomplete => 4,
                DiscordInteractionType::ModalSubmit => 5,
            },
    {
        match self {
            DiscordInteractionType::Ping => 1,
            DiscordInteractionType::ApplicationCommand => 2,
            DiscordInteractionType::MessageComponent => 3,
            DiscordInteractionType::ApplicationCommandAutocomplete => 4,
            DiscordInteractionType::ModalSubmit => 5,
        }
    }

    /// The kind that Discord numbers `v`, if any.
    pub fn from_value(v: i32) -> (t: Option<DiscordInteractionType>)
        ensures
            match t {
                Some(t) => t.value_spec() == v,
                None => !(1 <= v <= 5),
            },
    {
        match v {
            1 => Some(DiscordInteractionType::Ping),
            2 => Some(DiscordInteractionType::ApplicationCommand),
            3 => Some(DiscordInteractionType::MessageComponent),
            4 => Some(DiscordInteractionType::ApplicationCommandAutocomplete),
            5 => Some(DiscordInteractionType::ModalSubmit),
            _ => None,
        }
    }

    pub open spec fn value_spec(&self) -> i32 {
        match self {
            DiscordInteractionType::Ping => 1i32,
            DiscordInteractionType::ApplicationCommand => 2,
            DiscordInteractionType::MessageComponent => 3,
            DiscordInteractionType::ApplicationCommandAutocomplete => 4,
            DiscordInteractionType::ModalSubmit => 5,
        }
    }
}

/// The data of an interaction: a command's, or a pressed button's.
#[derive(Debug)]
pub enum DiscordInteractionData {
    ApplicationCommand(DiscordApplicationCommandInteractionData),
    MessageComponent(DiscordMessageComponentInteractionData),
}

/// The data of a command interaction, and of the completion of one.
#[derive(Debug)]
pub struct DiscordApplicationCommandInteractionData {
    pub id: String,
    pub name: String,
    pub options: Option<Vec<DiscordInteractionOptions>>,
}

/// The data of a button press: the id the button was given.
#[derive(Debug)]
pub struct DiscordMessageComponentInteractionData {
    pub custom_id: String,
}

/// The value of a command option.
#[derive(Debug, PartialEq)]
pub enum DiscordInteractionOptionValue {
    Bool(bool),
    String(String),
    Integer(i32),
}

/// A command option: its name, its value, and whether the user is typing in it.
#[derive(Debug)]
pub struct DiscordInteractionOptions {
    pub name: String,
    pub name_localizations: Option<HashMap<String, String>>,
    pub value: DiscordInteractionOptionValue,
    pub focused: Option<bool>,
}

/// What is needed to check that a request comes from Discord.
#[derive(Debug)]
pub struct DiscordInteractionMetadata {
    pub timestamp: String,
    pub signature: String,
    pub json_body: String,
}

/// A response to an interaction.
#[derive(Debug)]
pub enum DiscordInteractionResponse {
    Message(MessageResponse),
    Autocomplete(AutocompleteResponse),
    Ping(PingResponse),
}

/// A response with a message.
#[derive(Debug)]
pub struct MessageResponse {
    pub kind: DiscordInteractionResponseType,
    pub data: Option<DiscordInteractionResponseMessage>,
}

/// A response with autocomplete choices.
#[derive(Debug)]
pub struct AutocompleteResponse {
    pub kind: DiscordInteractionResponseType,
    pub data: Option<DiscordInteractionResponseAutocomplete>,
}

/// A response to a ping.
#[derive(Debug)]
pub struct PingResponse {
    pub kind: DiscordInteractionResponseType,
}

/// Which mentions a message may make.
#[derive(Debug)]
pub struct AllowedMentions {
    pub parse: Vec<String>,
}

/// The message of a response.
#[derive(Debug)]
pub struct DiscordInteractionResponseMessage {
    pub allowed_mentions: Option<AllowedMentions>,
    pub content: Option<String>,
    pub embeds: Option<Vec<DiscordEmbed>>,
    pub flags: Option<i32>,
}

/// The choices of an autocomplete response.
#[derive(Debug)]
pub struct DiscordInteractionResponseAutocomplete {
    pub choices: Option<Vec<DiscordInteractionOptions>>,
}

/// A Discord user.
#[derive(Debug, PartialEq)]
pub struct DiscordUser {
    pub id: String,
    pub username: String,
    pub avatar: String,
}

/// A member of a server.
#[derive(Debug)]
pub struct DiscordGuildMember {
    pub user: Option<DiscordUser>,
}

/// The kind of a response.
#[derive(Debug, PartialEq, Eq, Structural, Clone, Copy)]
pub enum DiscordInteractionResponseType {
    Pong,
    ChannelMessageWithSource,
    DeferredChannelMessageWithSource,
    DeferredUpdateMessage,
    UpdateMessage,
    ApplicationCommandAutocompleteResult,
    Modal,
    PremiumRequired,
}

impl DiscordInteractionResponseType {
    /// The number Discord uses for this kind.
    pub fn value(&self) -> (v: i32)
        ensures
            v == match self {
                DiscordInteractionResponseType::Pong => 1i32,
                DiscordInteractionResponseType::ChannelMessageWithSource => 4,
                DiscordInteractionResponseType::DeferredChannelMessageWithSource => 5,
                DiscordInteractionResponseType::DeferredUpdateMessage => 6,
                DiscordInteractionResponseType::UpdateMessage => 7,
                DiscordInteractionResponseType::ApplicationCommandAutocompleteResult => 8,
                DiscordInteractionResponseType::Modal => 9,
                DiscordInteractionResponseType::PremiumRequired => 10,
            },
    {
        match self {
            DiscordInteractionResponseType::Pong => 1,
            DiscordInteractionResponseType::ChannelMessageWithSource => 4,
            DiscordInteractionResponseType::DeferredChannelMessageWithSource => 5,
            DiscordInteractionResponseType::DeferredUpdateMessage => 6,
            DiscordInteractionResponseType::UpdateMessage => 7,
            DiscordInteractionResponseType::ApplicationCommandAutocompleteResult => 8,
            DiscordInteractionResponseType::Modal => 9,
            DiscordInteractionResponseType::PremiumRequired => 10,
        }
    }
}

/// Flags of a message.
#[derive(Debug, PartialEq, Eq, Structural, Clone, Copy)]
pub enum DiscordMessageFlag {
    SuppressEmbeds,
    EphemeralMessage,
    SuppressNotifications,
}

impl DiscordMessageFlag {
    /// The bit Discord uses for this flag.
    pub fn value(&self) -> (v: i32)
        ensures
            v == match self {
                DiscordMessageFlag::SuppressEmbeds => 4i32,
                DiscordMessageFlag::EphemeralMessage => 64,
                DiscordMessageFlag::SuppressNotifications => 4096,
            },
    {
        match self {
            DiscordMessageFlag::SuppressEmbeds => 4,
            DiscordMessageFlag::EphemeralMessage => 64,
            DiscordMessageFlag::SuppressNotifications => 4096,
        }
    }
}

} // verus!
