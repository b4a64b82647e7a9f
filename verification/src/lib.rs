//! Ingestion of public budget documents into canonical facts.
//!
//! A document is acquired once and named by the digest of its bytes
//! (`acquire`, `collect`, `sources`, `config`). Its format is told from
//! what is recorded of it (`detect`), and the parser of that format turns
//! it into fact candidates, each with the place it was read from
//! (`generic_csv`, `workbook`, `ley`, over `delimited`, `text`, `numeral`,
//! `keys`, `order`, `calendar`). A run resolves the identities of the
//! candidates and writes them, one at a time (`ingest`, `identity`,
//! `ident`), and `ledger` states what such a run leaves in the store.
//!
//! The library performs no input or output. Where work alternates with a
//! store or a network, it decides each step and the caller performs it.

pub mod acquire;
pub mod calendar;
pub mod collect;
pub mod config;
pub mod delimited;
pub mod detect;
pub mod generic_csv;
pub mod ident;
pub mod identity;
pub mod ingest;
pub mod keys;
pub mod ledger;
pub mod ley;
pub mod model;
pub mod numeral;
pub mod order;
pub mod report;
pub mod sources;
pub mod text;
pub mod workbook;
