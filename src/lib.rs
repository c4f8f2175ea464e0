//! An interactive line editor for Unix-style command-line interfaces.
//!
//! The editor turns the bytes typed at a terminal into edits of the current
//! line, recalls of earlier lines and completions, and hands back two kinds
//! of actions: run a command, or complete the line. It does no I/O itself:
//! each call returns the characters to write to the terminal.
//!
//! One input byte is one character: bytes are not decoded from UTF-8, and a
//! byte `b` that is not a key of its own is inserted as `b as char`, so the
//! bytes 0x80 to 0xFF stand for U+0080 to U+00FF. Cursor positions count
//! those characters.
pub mod cli;
pub mod completion;
pub mod escseq;
pub mod text;
pub mod tokenize;

pub use cli::{Action, Cli};
pub use completion::{common_chars, common_prefix};
pub use escseq::EscSeq;
pub use tokenize::tokenize;
