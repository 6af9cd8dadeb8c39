//! The core of a peer-to-peer file sharing service: what a peer says on the
//! wire, how it answers, how it checks the integrity of what it downloads,
//! and how its command line behaves. The network, the disk and the terminal
//! are left to the program around the library, which performs the actions that
//! the library decides on and hands back what came of them.

pub mod address_book;
pub mod command_core;
pub mod digest;
pub mod download;
pub mod files;
pub mod header;
pub mod laws;
pub mod messages;
pub mod peer;
pub mod peer_map;
pub mod repl;
pub mod startup;
pub mod std_items;
pub mod text;
