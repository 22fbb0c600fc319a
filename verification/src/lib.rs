//! A lookup engine over a bilingual lexical dataset: a store gateway backed by
//! SQLite, a bulk loader for JSON term-bank files, and a field-weighted
//! scoring, ranking and pagination pipeline over substring match candidates.

pub mod entry;
pub mod json;
pub mod laws;
pub mod loader;
pub mod rank;
pub mod row;
pub mod score;
pub mod search;
pub mod store;
pub mod text;
