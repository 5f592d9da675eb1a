//! Compiles an API description into an Abstract API Tree (AAT) and checks it.
//!
//! A [`spec::Spec`] names services and endpoints whose types are schema
//! documents ([`json::Json`]). [`aat::AAT::from_spec`] normalises every
//! schema into the closed [`types::FieldType`] / [`types::NamedType`] algebra,
//! registers named types with structural deduplication, and sorts the result
//! by name; [`aat::AAT::validate`] then checks that every reference resolves
//! and that every path parameter can be written as one string.

pub mod aat;
pub mod constraints;
pub mod equality;
pub mod error;
pub mod float;
pub mod json;
pub mod naming;
pub mod order;
pub mod schema;
pub mod spec;
pub mod text;
pub mod types;
pub mod validation;
pub mod writer;
