//! A declarative description of an HTTP request: reading it from a TOML document into a
//! typed model, and filling the `{{name}}` placeholders of a request with values.
//!
//! Reading goes from text to a [`document::Item`], and from there to a
//! [`schema::Schema`] and a [`schema::body::Body`]. Rendering takes a
//! [`request::Request`], a catalog of [`placeholders::Placeholders`] and a list of
//! values, and gives the request with the values filled in.

pub mod document;
pub mod error;
pub mod headers;
pub mod media;
pub mod placeholders;
pub mod renderer;
pub mod request;
pub mod schema;
pub mod table;
pub mod text;
