//! Extracts item records from a game's localized data archives: binary
//! relational tables are decoded and accumulated per key with last-wins
//! deduplication, cross-referenced into denormalized records, overlaid with
//! externally curated facts, filtered against a baseline inventory, and
//! sorted for serialization. The accumulators, the join, the overlay and the
//! filters carry contracts; archive and file ingestion order is an explicit
//! part of the pipeline driver's contract, since last-wins correctness
//! depends on it.

pub mod header;
pub mod join;
pub mod locator;
pub mod models;
pub mod output;
pub mod overlay;
pub mod parse;
pub mod rows;
pub mod store;
pub mod strutil;
pub mod utils;
