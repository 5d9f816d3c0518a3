//! A verified parsing core for Internet messages: the byte-level combinator
//! substrate shared by all grammar rules, the date-time grammar of RFC 5322,
//! the MIME data model, and the entity-resolution engine that decodes
//! transfer encodings and splits multipart bodies (RFC 2045/2046).

pub mod combinator;
pub mod entity;
pub mod error;
pub mod mime;
pub mod time;
