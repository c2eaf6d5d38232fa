//! Annotation search for a symbol picker.
//!
//! A locale is resolved into the languages to search in (`locale`). For
//! those languages the catalog of symbols (`catalog`) yields one document
//! for each entry that is not a variant (`document`). The documents replace
//! what the index held (`store`), and free-text queries are answered with a
//! ranked, bounded list of catalog entries (`search`). The index itself is
//! an outside engine; what this library takes on trust about it is in
//! `engine`.
//!
//! Around the search stand the picks that are remembered between runs
//! (`history`), the decisions of the picker's window (`picker`) and the
//! looks of its buttons (`theme`).

pub mod catalog;
pub mod document;
pub mod engine;
pub mod history;
pub mod locale;
pub mod picker;
pub mod search;
pub mod store;
pub mod text;
pub mod theme;
