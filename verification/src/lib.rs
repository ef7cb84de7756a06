//! Core of a file tag manager: a verified index of file metadata.
//!
//! The library models the indexing pipeline of the application: the data
//! model for files, tags and their associations, an in-memory storage
//! index, a directory scanner over an in-memory snapshot of a directory
//! tree, a change-event vocabulary with a deduplicating bounded queue and
//! a debouncing handler, a declarative auto-tag rule engine, and the
//! construction of full-text search queries.
//!
//! Filesystem access, the SQLite persistence layer and the OS change
//! notifications live outside the library; they hand plain values in and
//! take plain values back.

pub mod event;
pub mod handler;
pub mod models;
pub mod paths;
pub mod queue;
pub mod rules;
pub mod scanner;
pub mod search;
pub mod store;
pub mod tagger;
pub mod text;
pub mod time;
pub mod watch;
