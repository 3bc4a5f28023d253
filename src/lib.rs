//! A streaming JSON writer whose every operation is checked against the
//! structural state of the document being written.
//!
//! `JSONBuilder` writes into a text buffer of its own; `IntoJSON` lets a value
//! write itself through a builder. The text written is stated over `Json`, a
//! model of JSON values, and `render`, its text.

pub mod model;
pub mod escape;
pub mod json_builder;
pub mod text;
pub mod into_json;
pub mod laws;
pub mod grammar;

pub use escape::escape_json;
pub use into_json::IntoJSON;
pub use json_builder::{BuilderView, Error, JSONBuilder, State};
pub use model::Json;
