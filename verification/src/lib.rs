//! A small news-digest library: it filters RSS items by freshness, sanitizes
//! their text, builds the translation-service request URL, interprets the
//! service's reply, and formats the emitted records. Network I/O lives in the
//! surrounding application; everything here is verified.

pub mod chars;
pub mod entities;
pub mod digest;
pub mod feed;
pub mod freshness;
pub mod record;
pub mod sanitize;
pub mod text;
pub mod translate;
pub mod urlenc;
