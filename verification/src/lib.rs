//! Decoder for the tab-delimited export format of M5/M5e microplate
//! readers. A file holds a block-count header and that many independent
//! plate blocks; each block holds one settings row (whose field layout
//! depends on its declared read type and read mode), a temperature-unit
//! header line, one or more reads of ragged, spacer-padded well-value
//! grids, and an end sentinel. The decoded document can then be laid out
//! as CSV records.
//!
//! Lines come in as byte vectors without terminators; measured values
//! travel as validated float tokens, and turning them into machine
//! floats is the caller's boundary work. Each parser's contract equates
//! it with a specification function over byte sequences, and the laws of
//! the format (header round trip, layout determinism, the well-count
//! invariant, spacer immunity, sentinel enforcement) are proved from
//! those specifications.
//!
//! - [`bytes`]: trimming, tab fields, whitespace tokens, substring search
//! - [`num`]: unsigned decimal parsing and printing, float-token syntax
//! - [`error`]: the closed error taxonomy with structural locations
//! - [`settings`]: the settings-row resolver and its layout table
//! - [`grid`]: the read-grid parser
//! - [`file`]: the block and file assemblers
//! - [`output`]: CSV record layout and encoding
//! - [`util`]: small result combinators
pub mod bytes;
pub mod error;
pub mod file;
pub mod grid;
pub mod num;
pub mod output;
pub mod settings;
pub mod util;
