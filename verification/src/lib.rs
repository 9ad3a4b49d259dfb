//! Notekeeper: Telegram bots that each append what they receive to one
//! markdown file.
//!
//! This crate is the part of the app that decides: what an update from
//! Telegram leads to, where files go and how they are named, what is written
//! into the markdown file, what the tray shows. It performs no network or
//! file access; of the machine it asks the clock, random ids and the Keychain.
//! The long-running loops are state machines: the app performs the action a
//! machine asks for and hands back what happened.
//!
//! The modules that end in `_laws` hold no code. They state what follows from
//! the contracts for whoever uses the app: what is written, sent, named and
//! kept, for every message, file and setting.

pub mod api;
pub mod api_laws;
pub mod bot;
pub mod chunk;
pub mod clock;
pub mod clock_laws;
pub mod config;
pub mod config_laws;
pub mod daily;
pub mod daily_laws;
pub mod download;
pub mod download_laws;
pub mod filenames;
pub mod ids;
pub mod journal;
pub mod json;
pub mod name_laws;
pub mod path_laws;
pub mod paths;
pub mod poll;
pub mod poll_laws;
pub mod redact;
pub mod secret_laws;
pub mod secrets;
pub mod server;
pub mod server_laws;
pub mod size;
pub mod status;
pub mod text;
pub mod tray;
pub mod tray_laws;
pub mod update_laws;
pub mod view_laws;
pub mod worker;
pub mod worker_laws;
