//! Conversion of JSON documents into CSV text.
//!
//! A conversion runs in three stages. The loader ([`json`]) turns text into a
//! [`json::JsonDocument`]; the tabularizer ([`table`]) flattens a document
//! into a header and rows of string cells; the serializer ([`serializer`])
//! renders header and rows as CSV text. [`progress`] and [`job`] describe how
//! a conversion reports how far it has come.
//!
//! JSON parsing and printing are done by `serde_json`, CSV record writing by
//! `csv`. What this crate assumes of them is stated in the contracts of the
//! `external_body` functions and `assume_specification` items in [`json`] and
//! [`serializer`]; everything else is proved.

pub mod config;
pub mod conversion;
pub mod error;
pub mod job;
pub mod json;
pub mod progress;
pub mod reader;
pub mod serializer;
pub mod table;
