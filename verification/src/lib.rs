//! ClipNoteX core logic: data model, formatting, DONE LOG, encrypted-store
//! decisions and the small codecs the clipboard manager relies on.

pub mod error;
pub mod format;
pub mod hotkey;
pub mod ids;
pub mod model;
pub mod ordering;
pub mod paste;
pub mod api;
pub mod bus;
pub mod capture;
pub mod clipboard;
pub mod commands;
pub mod donelog;
pub mod settings;
pub mod setup;
pub mod store;
pub mod text;
pub mod thumbnail;
