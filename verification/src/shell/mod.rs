//! The shell: how it reads a command line, the table of the jobs it has
//! started, what the launcher and the monitors decide around that table, and
//! the text of its prompt and of its listings.

pub mod command;
pub mod job_list;
pub mod launcher;
pub mod listing;
pub mod monitor;
pub mod order;
pub mod prompt;
pub mod text;
