//! Resolves which listening TCP ports each process owns, and decides what to
//! do with the operator's choice of a process to terminate.

pub mod text;
pub mod port;
pub mod unix;
pub mod windows;
pub mod process;
pub mod selection;
