//! A terminal-emulation engine.
//!
//! The engine has three parts.
//!
//! - The lexer in [`ansi`] turns the raw bytes that a shell writes to its
//!   terminal into runs of literal text and decoded escape codes. The
//!   language that it accepts is defined in [`grammar`].
//! - The state machine in [`screen`] applies those tokens to a character
//!   grid ([`grid`]) with a brush ([`brush`]) that holds the cursor and the
//!   pen's colours ([`color`]).
//! - The pseudo-terminal bridge feeds the state machine. Its decisions are in
//!   [`bridge`]; the messages that reach the engine are in [`message`], and
//!   [`keys`] turns key presses into write requests.
//!
//! [`laws`] holds what is proved of the engine as a whole.
//!
//! Everything here computes on plain values. Opening the pseudo-terminal,
//! reading from it and writing to it are left to the program around the
//! library.
pub mod ansi;
pub mod bridge;
pub mod brush;
pub mod color;
pub mod grammar;
pub mod grid;
pub mod keys;
pub mod laws;
pub mod message;
pub mod screen;
