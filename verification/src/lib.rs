//! The logic of `ai-jail`, which runs a command in a sandbox behind a pseudo-terminal and
//! keeps a status bar on the real one.
//!
//! Whatever touches the system is left to the program around this library. The library
//! decides: `launch` and `pty` are the course of the program and of one run behind a
//! pseudo-terminal, `ioloop` moves the bytes, `child` is what the child does before it
//! becomes the command, and `statusbar` is the bar.

pub mod bytes;
pub mod child;
pub mod decimal;
pub mod escape;
pub mod ioloop;
pub mod launch;
pub mod outbuf;
pub mod pty;
pub mod statusbar;
pub mod stream;
pub mod sys;
pub mod termattrs;
pub mod transfer;
pub mod window;
