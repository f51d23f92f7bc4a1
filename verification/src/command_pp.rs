//! Re-rendering a stream of JSON values for reading.
//!
//! The pretty command parses each incoming value and writes it back out
//! indented, one block per value; [`crate::json::pretty_text`] does the
//! rendering, the stream handling around it is the caller's I/O.

use vstd::prelude::*;

verus! {

/// Pretty-prints the JSON values of its input.
#[derive(Debug)]
pub struct PpCommand {}

} // verus!
