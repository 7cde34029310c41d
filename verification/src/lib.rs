//! The core of an assistant that plays a word game from the chat of its
//! rooms: the state of a room and the requests that change it, the word list
//! and its search, the scoring of played words, the catalog of chat commands
//! with the roles that may use them, and the registry of rooms. The library
//! decides; connections, tasks and files are for the program around it.

pub mod bot;
pub mod catalog;
pub mod chat;
pub mod command;
pub mod dictionary;
pub mod game;
pub mod pattern;
pub mod registry;
pub mod roles;
pub mod score;
pub mod text;
pub mod types;
pub mod utils;
