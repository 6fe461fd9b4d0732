//! A personal journal that is kept by answering the prompts of a quiz.
//!
//! The library holds the rules of the journal and proves them: how a line of
//! input is read as choices and free text, how a session runs through the
//! prompts of a quiz, when a choice is due again, how the uses of the last
//! days become a table of streaks, how entries are listed, and what each
//! command asks of the store. It does no input or output: the program around
//! it reads, stores and prints what the library decides.

pub mod alter;
pub mod cli;
pub mod errors;
pub mod json_utils;
pub mod matcher;
pub mod models;
pub mod quick_note;
pub mod reminder;
pub mod report;
pub mod requests;
pub mod seed;
pub mod session;
pub mod store;
pub mod streaks;
pub mod text;
pub mod timestamp;
pub mod toml_schema;
