//! Decoder for versioned binary contract-schema modules and a projector of
//! the decoded schemas into a JSON document with a fixed key layout.
pub mod types;
pub mod decode;
pub mod json;
pub mod laws;
