//! Launchpad: the item model, configuration, themes and launcher logic of a
//! minimal application launcher.
pub mod artwork;
pub mod commands;
pub mod config;
pub mod demo;
pub mod hotkey;
pub mod icons;
pub mod key_names;
pub mod launcher;
pub mod laws;
pub mod models;
pub mod paths;
pub mod platform;
pub mod search;
pub mod theme;
pub mod ui;
