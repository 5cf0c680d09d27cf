//! Verified core of the mythterm terminal emulator.

pub mod bytes;
pub mod text;
pub mod png;
pub mod input;
pub mod mux;
pub mod texture;
pub mod splits;
pub mod overlay;
pub mod clipboard;
pub mod config;
pub mod cell;
pub mod ui;
pub mod font;
pub mod atlas;
pub mod args;
pub mod bloom;
pub mod colored;
