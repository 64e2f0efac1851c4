use vstd::prelude::*;

pub mod api;
pub mod app;
pub mod audio;
pub mod clipboard;
pub mod config;
pub mod feed;
pub mod graphics;
pub mod keybinds;
pub mod mouse;
pub mod parser;
pub mod paths;
pub mod saved_lists;
pub mod text;
