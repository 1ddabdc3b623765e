//! Normalisation and ingestion core for a trading-card catalog.
//!
//! Raw card records are filtered, flattened into one record per face, and
//! turned into the rows of a relational schema. The store itself stays
//! outside: the ingestion engine is a state machine that names the next
//! statement to run and is handed back what the store answered.
//!
//! From the leaves up:
//! - `text`: search, comparison and word splitting over characters;
//! - `color`: colour codes and their bitmask;
//! - `vocab`: the fixed vocabularies of formats, legalities and image kinds;
//! - `card`: raw records and their flattening into one record per face;
//! - `typeline`: the parser of the printed taxonomy line;
//! - `filter`: which records are left out before ingestion;
//! - `row`: the stored form of a card;
//! - `statement`: what is asked of the store, and what it may answer;
//! - `program`: the rows to write, laid out as instructions;
//! - `cache`: from natural keys to the ids the store gave;
//! - `updater`: the ingestion engine;
//! - `search`: the pattern of the name search;
//! - `store`: a model of the store;
//! - `laws`, `idempotence`: what holds of every run, proved over the model.

pub mod cache;
pub mod card;
pub mod color;
pub mod filter;
pub mod idempotence;
pub mod laws;
pub mod program;
pub mod row;
pub mod search;
pub mod statement;
pub mod store;
pub mod text;
pub mod typeline;
pub mod updater;
pub mod vocab;
