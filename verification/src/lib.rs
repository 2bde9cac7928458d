//! A small bookmark manager's core: a store of entries (url, title, notes)
//! with create, list, get, update and delete, and the pure routing decisions
//! that turn each operation's outcome into an HTTP answer.

pub mod form;
pub mod laws;
pub mod routes;
pub mod store;
pub mod types;
