//! An ORM toolkit in two halves, both verified.
//!
//! The generation half turns an annotated struct-like declaration into a
//! validated entity descriptor ([`table::Table`], [`schema::Schema`]) and
//! synthesizes the SQL text of its access methods ([`synth`], [`insert`],
//! [`patch`]) for a chosen SQL dialect ([`backend::Backend`]).
//!
//! The runtime half is a fluent query builder ([`builder`], [`statement`])
//! that accumulates predicate clauses and bound values in lock-step, and a
//! connection registry ([`connection`]) mapping datasource ids to pools.

pub mod attrs;
pub mod backend;
pub mod builder;
pub mod connection;
pub mod error;
pub mod insert;
pub mod model;
pub mod patch;
pub mod schema;
pub mod statement;
pub mod strutil;
pub mod synth;
pub mod table;
