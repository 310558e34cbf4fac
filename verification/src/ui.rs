//! Console UI state: the prompt with its history and suggestions, the command
//! catalog, the menus and the routing of typed commands.
pub mod style;
pub mod menu;
pub mod catalog;
pub mod model;
pub mod prompt;
pub mod command;
pub mod settings;
pub mod status;
pub mod io_nav;
pub mod labels;
pub mod alerts;
pub mod keys;
pub mod actions;
pub mod status_panel;
pub mod console;
