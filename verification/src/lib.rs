//! JSON Schema, compiled and checked.
//!
//! A schema is a JSON document that says what a JSON value must be like. A
//! [`scope::Scope`] compiles schemas into trees of checks and holds them under
//! their identifiers; a compiled schema validates a value and reports every
//! violation it finds, and every reference to a schema that the scope does
//! not hold.
//!
//! A validation follows references one inside the other. So that it ends
//! also where schemas refer to each other in a circle, it follows a bounded
//! number of them, which [`scope::bound_for`] derives from the scope and the
//! value; a validation that reached the bound says so in its state, and one
//! that did not reports what it would with any larger bound
//! (`validators::bound`).
//!
//! Every function states what it gives over the models of the values it
//! works on: [`json::JsonValue`] for documents, [`schema::SchemaModel`] for
//! compiled schemas, [`validators::StateModel`] for reports. What compiling
//! gives is `schema::compile_root_spec`, what validating gives is
//! `validators::validate_node`; `laws` holds what follows from them.
//!
//! A caller adds keywords, checks and formats of their own through the
//! traits [`keywords::CustomKeyword`] and [`validators::CustomValidator`]:
//! each says in a spec function what it gives, and what the library states
//! of a schema that uses one holds as far as the implementation keeps to it.
//!
//! URLs, percent-encoding, hash tables, random identifiers, dates and
//! regular expressions are those of the `url`, `hashbrown`, `uuid`, `chrono`
//! and `regex` crates. The library calls them through a few functions whose
//! contracts are taken on trust; each says so where it stands.

pub mod error;
pub mod helpers;
pub mod json;
pub mod keywords;
pub mod laws;
pub mod primitive_types;
pub mod schema;
pub mod scope;
pub mod table;
pub mod text;
pub mod uri;
pub mod validators;
