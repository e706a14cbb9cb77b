//! The core of a stub server: it compiles an API description into a table
//! of endpoints and resolves requests against that table.
//!
//! `document` holds the description, `transactions` compiles it and
//! resolves requests, `template` turns a path template into the pattern that
//! `engine` matches, and `status` reads status codes. `data` holds what the
//! server keeps and answers with, `errors` what can stop it from starting.
//! `theorems`, `assembly` and `meaning` state and prove what holds of tables,
//! of compiled templates and of the paths that a template stands for.

pub mod assembly;
pub mod data;
pub mod document;
pub mod engine;
pub mod errors;
pub mod meaning;
pub mod status;
pub mod template;
pub mod text;
pub mod theorems;
pub mod transactions;
