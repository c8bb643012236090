//! The list renderer behind Sicompass and its login screen.

pub mod accesskit_sdl;
pub mod actions;
pub mod answer_laws;
pub mod arrival_laws;
pub mod app_state;
pub mod auth;
pub mod caret;
pub mod clock;
pub mod commands;
pub mod disk_laws;
pub mod edge_laws;
pub mod editing;
pub mod elements;
pub mod enter_laws;
pub mod entry_laws;
pub mod events;
pub mod ffon;
pub mod files;
pub mod fuzzy;
pub mod handlers;
pub mod history;
pub mod http;
pub mod icon;
pub mod image;
pub mod insert;
pub mod key_laws;
pub mod label_laws;
pub mod laws;
pub mod list;
pub mod markup;
pub mod mode_laws;
pub mod move_laws;
pub mod moves;
pub mod offsets;
pub mod pages;
pub mod paths;
pub mod provider;
pub mod readiness;
pub mod rebuild;
pub mod rectangle;
pub mod registry;
pub mod render;
pub mod resume;
pub mod save_laws;
pub mod saving;
pub mod search;
pub mod search_laws;
pub mod session_mode;
pub mod shortcuts;
pub mod sorting;
pub mod state;
pub mod step_laws;
pub mod steps;
pub mod text;
pub mod text_laws;
pub mod timeline;
pub mod tree_laws;
pub mod typing;
pub mod walks;
pub mod way_laws;
