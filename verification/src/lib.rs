//! Legal holds and the retention guard that honours them.
//!
//! Every operation is a run that asks for one thing at a time, a dependency's
//! answer or a storage statement, and decides on what comes back what it does
//! next. The decisions are executable functions with exact contracts; what whole
//! runs amount to is proved over a model of the tables.
pub mod administration;
pub mod authorization;
pub mod command;
pub mod config;
pub mod digest;
pub mod failure;
pub mod guard;
pub mod hold;
pub mod json;
pub mod laws;
pub mod lifecycle;
pub mod models;
pub mod outcomes;
pub mod paging;
pub mod query;
pub mod request;
pub mod schema;
pub mod statement;
pub mod tables;
pub mod text;
pub mod timestamp;
pub mod tools;
pub mod transaction;
