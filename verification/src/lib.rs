//! Data-access core for purchase orders, projects and the links between them.
//!
//! The crate never touches a database itself.  Every operation is a short
//! conversation: it hands out one [`statement::Statement`] at a time, the
//! caller runs it against the store and hands the [`reply::Reply`] back.
//! What the store is expected to do with a statement is written down in
//! [`model`], what an operation as a whole does in [`effect`], and
//! [`memory::MemoryStore`] is an executable store that is proved to keep
//! the contract.
pub mod command;
pub mod effect;
pub mod error;
pub mod laws;
pub mod memory;
pub mod model;
pub mod record;
pub mod reply;
pub mod schema;
pub mod statement;
