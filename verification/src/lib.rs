//! Headless logic of the Multiplexer desktop shell and its in-app terminal.

use vstd::prelude::*;

pub mod text;
pub mod frame_model;
pub mod frame;
pub mod frame_laws;
pub mod terminal;
pub mod keys;
pub mod hub;
pub mod workspace;
pub mod inspector_model;
pub mod search;
pub mod json;
pub mod desktop;
pub mod actions;
pub mod workspace_laws;
pub mod keymap;
pub mod keymap_laws;
pub mod bindings;
pub mod composer;
pub mod fuzzy;
pub mod overlay;
pub mod palette;
pub mod diff_view;
pub mod article;
pub mod notices;
pub mod slash;
pub mod terminal_ui;
pub mod tui_input;
pub mod center;
pub mod icons;
pub mod menus;
pub mod connection;
pub mod review;
pub mod workbench;
pub mod embed;
pub mod approval_ui;
pub mod catalog;
pub mod persist;
pub mod agents;
pub mod usage;
pub mod remote;
pub mod status;
pub mod widgets;
pub mod chrome_geom;
pub mod integrations;
pub mod theme;
pub mod settings;
pub mod grok_history;

verus! {

} // verus!
