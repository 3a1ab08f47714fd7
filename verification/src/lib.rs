//! A record transformation engine for single JSON documents, directories of
//! per-key JSON files and newline-delimited JSON streams.
//!
//! - `path`: a dot-separated field path becomes a pointer into a document.
//! - `json_text`: a value moves between JSON in place and a string that
//!   holds JSON text.
//! - `json`: the listed fields of a document are unescaped, escaped or
//!   dropped.
//! - `filter`: a regular expression decides which top-level keys take part.
//! - `assemble`: an object becomes a list of records, and a list of records
//!   an object.
//! - `stream`: a line of a stream is read into a value, and a value written
//!   as text.
//! - `naming`: the name under which a record of a stream is written.
//! - `bundler`, `unbundler`: records become lines, and lines records.
//! - `value`, `object`: the JSON data model.
//! - `document`: a document in the hands of `serde_json` and `jsonptr`.
//! - `bridge`: what is taken on trust from `serde_json`, `jsonptr` and
//!   `regex`.
//!
//! The library reads and writes nothing itself: a caller hands it text and
//! values and does the input and output.

pub mod assemble;
pub mod bridge;
pub mod bundler;
pub mod document;
pub mod filter;
pub mod json;
pub mod json_text;
pub mod naming;
pub mod object;
pub mod path;
pub mod stream;
pub mod unbundler;
pub mod value;
