//! Schema inference for configuration data.
//!
//! A parsed configuration document is a tree of dynamically typed values.
//! This crate derives from such a tree the definitions of the record types
//! that mirror it: one for the document itself and one for every object
//! nested in it, each with the type and the initial value of every field.
//! The definitions are plain data; turning them into source text or tokens
//! is left to the caller.
//!
//! - [`parse`] reads the text of a JSON, YAML or TOML file into a tree of
//!   [`value::Node`]s.
//! - [`naming`] names the record type of a nested object after its owner
//!   and its key.
//! - [`infer`] gives every member of an object the type and the initial
//!   value of its field.
//! - [`synth`] collects the record types of a document, described in the
//!   terms of [`schema`].
//! - [`driver`] runs the three in a row.
//! - [`instance`] tells what the instances of the generated types hold, and
//!   [`roundtrip`] holds that against the document.
//!
//! Every function states what it returns over the mathematical form of its
//! arguments, which `@` gives: strings are sequences of characters and
//! vectors are sequences.

pub mod driver;
pub mod error;
pub mod infer;
pub mod instance;
pub mod naming;
pub mod parse;
pub mod roundtrip;
pub mod schema;
pub mod synth;
pub mod value;
