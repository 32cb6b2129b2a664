//! The type graph of a schema-driven query-language compiler: a registry
//! of objects and scalars that is built from type-system documents in two
//! passes, with every step proved against a model of what it does.
//!
//! - [`process_type_definition`] holds the steps: the fields of one
//!   object, the computed field that the registry adds, one definition,
//!   the second pass, one document, one extension.
//! - [`model`] says what each step does, as functions on views;
//!   [`invariants`], [`laws`] and [`refinement_laws`] prove what follows.
//! - [`schema`] and [`registry`] hold the records and the operations on
//!   them; [`graphql_types`], [`lang_types`] and [`common`] the shapes of
//!   what goes in.
//! - [`peekable_lexer`] is a cursor over tokens, and
//!   [`format_parameter_type`] writes the types of a finished registry in
//!   the host language.

pub mod common;
pub mod error;
pub mod format_parameter_type;
pub mod graphql_types;
pub mod invariants;
pub mod lang_types;
pub mod laws;
pub mod model;
pub mod peekable_lexer;
pub mod process_type_definition;
pub mod refinement_laws;
pub mod registry;
pub mod schema;
