//! Report model, navigation state and command logic of a terminal viewer
//! for nix-result-checks reports.
pub mod table;
pub mod app;
pub mod text;
pub mod keymap;
pub mod detail_view;
pub mod list_view;
pub mod ui;
pub mod runner;
pub mod stream;
pub mod config;
pub mod errorlog;
pub mod source;
pub mod wrap;
pub mod screen;
pub mod laws;
pub mod upsert_laws;
pub mod consistency;
pub mod listing_laws;
pub mod viewer_laws;
