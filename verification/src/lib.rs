//! A small interactive shell, as a library: how a command line is read, how
//! the jobs that it starts are tracked, and what the shell decides and prints
//! around them. Every function here computes on plain values; reading lines,
//! starting processes and writing to the terminal is left to the caller.

pub mod game;
pub mod job_list;
pub mod keys;
pub mod shell;
