//! Interactive viewer core for crash-analysis records.
//!
//! A record couples a program counter / link register pair with a hit count
//! and the execution paths that produced the crash. This crate holds the
//! verified core of the viewer: line parsing into records, the dual-pane
//! navigation state machine, the key-to-command mapping, and the pure
//! construction of the renderable frame. Terminal, clipboard and file
//! handling live outside the library.

pub mod keymap;
pub mod nav;
pub mod record;
pub mod text;
pub mod view;
