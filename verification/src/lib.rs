//! Verified state machines and decision logic of a terminal music workstation:
//! vim-style count prefixes, numeric entry, the realtime keyboard (MIDI
//! messages, controller cycles, note repeat and arpeggio), the connection
//! status shown for it, patch catalogs and filters, the notepad editor, the
//! loop browser's tree and track grid, the loop player's transport, the
//! cache of rendered audio, and how the MIDI sender carries out its commands.
pub mod midi_message;
pub mod navigation;
pub mod random_deck;
pub mod text;
pub mod numeric_input;
pub mod keyboard_connection;
pub mod keyboard_model;
pub mod keyboard_state;
pub mod query;
pub mod chord_preview;
pub mod tui_app;
pub mod patch_select;
pub mod keyboard_catalog;
pub mod keyboard_screen;
pub mod loop_browser;
pub mod mml_input;
pub mod loop_tree;
pub mod pad_voices;
pub mod transport;
pub mod audio_cache;
pub mod sender_plan;
