//! The text storage of a terminal editor: a gap buffer of characters, a text
//! buffer that tracks the cursor's line and column and locates words, lines
//! and blocks, and a command engine whose edits can be undone and redone.
pub mod cmd;
pub mod color;
pub mod command_engine;
pub mod comms;
pub mod config;
pub mod files;
pub mod gap_buffer;
pub mod input;
pub mod key;
pub mod scan;
pub mod strings;
pub mod text_buffer;
pub mod view;
