//! Verified core of a to-do list backend.
//!
//! The library models the application's data (to-do items, tags, and the
//! join rows that attach tags to items), builds the SQL statements that
//! persist them, and decodes the rows that come back.  An in-memory store
//! gives each command its exact meaning.  All I/O — opening the database,
//! running the statements — is left to the surrounding program.

pub mod database;
pub mod sql;
pub mod store;
pub mod tag;
pub mod todo_item;
