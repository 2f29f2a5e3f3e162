//! A terminal-emulator core: a fixed-size screen buffer driven by an
//! ANSI/VT escape-sequence interpreter, together with the session-level
//! decision logic of a pseudo-terminal (PTY) manager.
//!
//! The screen buffer and the byte-stream interpreter are pure data and
//! logic, specified against a mathematical model of the grid and cursor.
//! Process and device handling (forking the shell, reading the master
//! side) is left to the embedding program; this crate supplies the
//! decisions that such a program needs: session state transitions,
//! severity of setup failures, the `TERM` value for a shell, command
//! dispatch, and history bookkeeping.

pub mod command;
pub mod interp;
pub mod screen;
pub mod session;
pub mod text;
pub mod widget;
