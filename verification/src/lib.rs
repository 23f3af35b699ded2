//! A verified client core for a secret-management service: the typed resource
//! model, the JSON wire codec for it (string-encoded 64-bit integers, base64
//! payloads, canonical timestamp/duration/field-mask text, untagged unions),
//! and the uniform error envelope that classifies failures from the codec and
//! its collaborators.

pub mod error;
pub mod json;
pub mod scalar;
pub mod codec;
pub mod model;
pub mod wellknown;
mod strutil;
