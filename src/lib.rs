//! Request introspection: the caller's address, its headers and its user
//! agent, rendered as plain text or as a JSON object, by route.
pub mod address;
pub mod classify;
pub mod decode;
pub mod headers;
pub mod json;
pub mod plain;
pub mod routes;
pub mod text;
