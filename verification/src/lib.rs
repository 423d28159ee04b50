//! The matchmaking group engine of ET-MM Bot, a chat bot through which the
//! members of a community subscribe to matchmaking groups such as `1v1` or
//! `6v6`.
//!
//! The engine is the part of the bot that decides. It reads the catalog of
//! groups from the configuration ([`config`]), gives the answers of the
//! membership store their meaning and registers the catalog with it
//! ([`database`]), takes a `subscribe` or `unsubscribe` command from the
//! member's message to the one reply that ends it ([`bot::commands`]), and
//! sees to it that every guild has a text channel and a role for every group,
//! without ever creating one twice ([`bot`]).
//!
//! It does none of the talking. Whatever needs the chat platform, the store
//! or the file system is asked for as a value, done by the caller, and handed
//! back as a value. What the engine does with these values is stated in
//! contracts over plain mathematical models and proved; what it relies on in
//! its surroundings is written down with the laws that rest on it.

pub mod bot;
pub mod config;
pub mod database;
pub mod text;
