//! A minimal relational data engine: SQL-like statements are tokenized,
//! parsed into typed commands, and executed against fixed-width binary
//! row buffers described by a persisted catalog.
//!
//! The crate is organised bottom-up:
//! - `error`: the structured error taxonomy and its client-facing text;
//! - `strutil`: character/string helpers shared by the tokenizer and codecs;
//! - `datatypes`: the column type codec (integer and varchar);
//! - `table_def`: column and table definitions with their row layout;
//! - `expr`: the typed value/predicate expression model and its evaluator;
//! - `command`: the tokenizer and the per-command statement parsers;
//! - `catalog`: the textual table-definition format;
//! - `engine`: row encoding, table scans, filtering, projection and deletion.
//!
//! All file and socket handling lives outside this crate; every function
//! here computes over plain values and is verified against its contract.

pub mod catalog;
pub mod command;
pub mod datatypes;
pub mod engine;
pub mod error;
pub mod expr;
pub mod strutil;
pub mod table_def;
