//! Request components for a command-line HTTP client: a compact token
//! language for query parameters, headers and nested JSON bodies, and the
//! tree builder that folds body fragments into one JSON document.

pub mod json;
pub mod json_builder;
pub mod text;
pub mod grammar;
pub mod parser;
pub mod session;
pub mod config;
pub mod url_builder;
pub mod headers;
pub mod request_builder;
pub mod cli;
