//! Sessions of the command-line assistant in tiles.
pub mod claude;
pub mod client;
pub mod cursor;
pub mod debug_panel;
pub mod json;
pub mod lists;
pub mod overlay;
pub mod paths;
pub mod registry;
pub mod screen;
pub mod selection;
pub mod seqs;
pub mod session;
pub mod session_view;
pub mod shared;
pub mod session_keys;
pub mod slash;
pub mod text;
pub mod usage;
pub mod ws;
pub mod ws_panel;
