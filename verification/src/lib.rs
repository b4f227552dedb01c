//! Verified core of the OKTO spaceflight bot: launch data handling, reminder
//! filtering and scheduling decisions, text formatting and the validation of
//! the interactive Discord components the bot builds.

pub mod commands;
pub mod distinct;
pub mod choices;
pub mod components;
pub mod durations;
pub mod embeds;
pub mod filters;
pub mod general;
pub mod interactions;
pub mod launches;
pub mod legacy;
pub mod menus;
pub mod lexical;
pub mod listing;
pub mod notifications;
pub mod pages;
pub mod pictures;
pub mod reminders;
pub mod sorting;
pub mod text;
pub mod tracking;
