//! A schema compiler for HTTP endpoints.
//!
//! A description of an endpoint (metadata, the fields of the request, the
//! fields of the response) is parsed, its fields are given their roles on
//! the wire, and its path templates are bound to its path fields. The
//! endpoint that comes out turns the values of its fields into a request or
//! response for the transport, and back.

pub mod text;
pub mod template;
pub mod schema;
pub mod error;
pub mod description;
pub mod lexicon;
pub mod parser;
pub mod classify;
pub mod compile;
pub mod json;
pub mod value;
pub mod marshal;
pub mod wire;
pub mod dispatch;
pub mod laws;
pub mod content;
pub mod set_room_account_data;
pub mod audio;
