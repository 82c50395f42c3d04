//! Decision logic of a tabbed terminal emulator: actions and the requests
//! they dispatch, keyboard shortcut parsing and matching, the shortcut
//! editing dialog, tab navigation, font selection, profiles, color scheme
//! names, the side panels and the command line.

pub mod action;
pub mod cli;
pub mod dialog;
pub mod fonts;
pub mod idmap;
pub mod keybinds;
pub mod keys;
pub mod panels;
pub mod paste;
pub mod profiles;
pub mod settings;
pub mod tabs;
pub mod text;
pub mod themes;
