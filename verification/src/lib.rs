//! Registry of business partners, reconciled against spreadsheet imports.
//!
//! The crate keeps a persisted store of partner records, merges imported
//! `(id, name)` batches into it without touching locally curated fields,
//! judges how fresh the store is against a configured interval, and builds
//! a filtered, deterministically sorted projection for presentation.
//! Reading and writing files, and the spreadsheet itself, are left to the
//! surrounding program; everything here works on plain values.

pub mod cas;
pub mod config;
pub mod logic;
pub mod models;
pub mod synchronizace;
pub mod text;
