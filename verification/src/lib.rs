//! Reads text-encoded game object definitions into typed records.
//!
//! An object file is a sequence of `key=value` fields, joined by newlines or
//! commas. [`parser::parse_object`] reads one file's text into an
//! [`parser::types::Object`]; [`parser::parse`] does so for a whole set of
//! files and keeps the ones that are well formed.

pub mod parser;
