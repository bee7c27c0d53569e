//! A terminal multiplexer core: VT100/ANSI emulation over a cell grid,
//! scrollback and output tracking, prompt detection, input encoding, the
//! attach-socket wire format, and the session bookkeeping that ties them
//! together. An unverified shell around this crate supplies the PTY, the
//! reader thread and the sockets; everything that decides or computes
//! lives here.

pub mod ansi;
pub mod cursor;
pub mod elicit;
pub mod emulator;
pub mod env;
pub mod keys;
pub mod manager;
pub mod paste;
pub mod prompt;
pub mod protocol;
pub mod screen;
pub mod scrollback;
pub mod session;
pub mod strutil;
pub mod tools;
pub mod tracker;
pub mod types;
