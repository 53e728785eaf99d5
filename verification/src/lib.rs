//! Discovery and validation of calendar dates embedded in free-form text,
//! such as the output of an optical-character-recognition step run over a
//! scanned identity document.
//!
//! The library has two halves: a catalog of recognition patterns that finds
//! candidate date substrings in a text blob and classifies them by surface
//! form (`filtering`), and a parser that interprets a candidate string
//! against a configurable set of layout templates, producing a calendar date
//! that is guaranteed to exist under the proleptic Gregorian calendar
//! (`date_parsing`). Around them sit small value types describing an
//! invocation of an external recognition tool (`command`, `format`, `data`);
//! actually spawning that tool is left to unverified callers.

pub mod text;
pub mod patterns;
pub mod filtering;
pub mod date_parsing;
pub mod format;
pub mod command;
pub mod data;
