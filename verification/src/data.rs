//! The values that the server holds and hands out.

pub mod app;
pub mod cli_args;
pub mod reply;
