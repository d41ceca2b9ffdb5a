pub mod text;
pub mod filters;
pub mod analyzer;
pub mod dice;
pub mod discord;
pub mod binahbot;
pub mod utils;
pub mod lists;
pub mod numbers;
pub mod deck;
pub mod rollcalc;
pub mod lobocorp;
pub mod game_objects;
pub mod lc;
pub mod reparser;
pub mod lor_command;
pub mod lor_autocomplete;
pub mod deck_commands;
pub mod router;
pub mod signature;
pub mod lobocorp_index;
pub mod spoiler;
pub mod deck_store;
pub mod xml;
pub mod abnormalities;
pub mod equipment;
pub mod lor_embeds;
