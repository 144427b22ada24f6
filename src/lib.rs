//! Decisions behind autotype: which synthetic key events type a character,
//! when a typing session stops, and how a window is named.
//!
//! The operating system calls themselves (sending input, reading the focused
//! window, opening a process) are made by the caller, which hands the results
//! to the functions here and performs the actions they return.

pub mod keys;
pub mod typing;
pub mod window;
