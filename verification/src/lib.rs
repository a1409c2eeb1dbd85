//! A toolbox for the desktop: modules that run in the background, the bus over which
//! they report, and the rules by which the shell around them acts.
//!
//! - [`modules`]: what each module decides, step by step, with [`manager`] switching them
//!   on and off and [`bus`] announcing it.
//! - [`config`], [`logging`], [`autostart`] and [`paths`]: where things are kept, and what
//!   follows from reading and writing them.
//! - [`shell`]: the start and the end of the program, what is listed, and what the user is
//!   told.
//! - [`text`], [`utf16`] and [`seqs`]: texts as sequences of characters, of code units and
//!   of bytes.
//!
//! The calls into the system are made by the program; here they appear as codes, buffers
//! and events.

pub mod autostart;
pub mod bus;
pub mod config;
pub mod logging;
pub mod manager;
pub mod modules;
pub mod paths;
pub mod seqs;
pub mod shell;
pub mod text;
pub mod utf16;
