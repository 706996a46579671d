//! A game engine for text adventures described in ini files: the world model,
//! the rules of play, the configuration parser and the menus shown to the player.

pub mod config;
pub mod database;
pub mod entity;
pub mod error;
pub mod exits;
pub mod ids;
pub mod item_set;
pub mod names;
pub mod player;
pub mod proxy;
pub mod state;
pub mod text;
pub mod ui;
pub mod world;
