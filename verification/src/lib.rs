//! The logic of a terminal music client.

pub mod actor;
pub mod app;
pub mod app_loop;
pub mod art;
pub mod background;
pub mod cache;
pub mod cli;
pub mod config;
pub mod config_file;
pub mod copied;
pub mod document;
pub mod double;
pub mod edits;
pub mod event;
pub mod event_loop;
pub mod help;
pub mod kept_lines;
pub mod keymap;
pub mod laws;
pub mod laws_edits;
pub mod laws_intents;
pub mod laws_keys;
pub mod laws_lists;
pub mod laws_loop;
pub mod laws_outside;
pub mod laws_player;
pub mod laws_screen;
pub mod laws_settings;
pub mod laws_source;
pub mod laws_words;
pub mod laws_work;
pub mod marks;
pub mod mock;
pub mod model;
pub mod mpris;
pub mod mutation;
pub mod nowplaying;
pub mod outline;
pub mod player;
pub mod queue;
pub mod reducer;
pub mod render;
pub mod resolver;
pub mod screen;
pub mod search_state;
pub mod sidebar;
pub mod startup;
pub mod state_file;
pub mod storage;
pub mod tasks;
pub mod text;
pub mod theme;
pub mod topped_once;
pub mod tracklist;
