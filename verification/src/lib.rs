//! Resolution of dynamically typed components against a relational store.
//!
//! A component's attribute schema is discovered at run time. This library turns
//! such a schema and an incoming argument bag into equality filters, builds the
//! parameter-bound query text for the component's table, and decodes raw rows
//! into ordered value records. Every function is verified against a
//! mathematical model of the data it works on.

pub mod error;
pub mod text;
pub mod scalar;
pub mod ordered_map;
pub mod row;
pub mod mapping;
pub mod args;
pub mod query;
pub mod schema;
pub mod object;
