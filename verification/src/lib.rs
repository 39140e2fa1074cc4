//! Session bookkeeping, tab navigation and terminal-text processing for the
//! boltshell SSH client, with their contracts.

pub mod text;
pub mod escape;
pub mod terminal;
pub mod tabs;
pub mod session;
pub mod state;
