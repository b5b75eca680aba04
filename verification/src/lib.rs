//! A small embedded dictionary storage and import subsystem.
//!
//! The crate persists named documents and dictionaries in an SQLite file,
//! ingests CC-CEDICT-style dictionary text into word-definition records,
//! replaces a dictionary's contents atomically, and answers prefix queries
//! over headwords.

pub mod config;
pub mod db;
pub mod ids;
pub mod model;
pub mod sql;
pub mod parse;
pub mod text;
pub mod words;
