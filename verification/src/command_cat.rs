//! Reading whole log files into records.
//!
//! The cat pipeline receives file paths, classifies each by its name,
//! and turns the file's content into records: a JSON-lines file goes
//! through [`crate::message::parse_log_line`] line by line, and the
//! crash log through [`crate::message::CrashMessage::parse`].  Each
//! generic record leaves with the synthesized `@domain`, `@type` and
//! `@path` fields.  Reading the files and emitting the records is the
//! caller's I/O; the decision which parser a path gets is made here.

use vstd::prelude::*;
use crate::message::MessageKind;
use crate::message::spec_has_line_parser;

verus! {

/// Streams the records of the log files named on its input.
#[derive(Debug)]
pub struct CatCommand {}

/// How the content of a classified file is to be read.
#[derive(Debug, Clone, Copy, PartialEq, Eq, Structural)]
pub enum FileParser {
    /// One record per line, through the kind's line parser.
    JsonLines,
    /// The whole file at once, through the crash segmenter.
    CrashReport,
    /// No parser exists for this kind of file.
    Unsupported,
}

/// Which parser a kind gets: the crash log its segmenter, the kinds
/// without a modeled record shape none, every other kind the line
/// parser.
pub open spec fn spec_parser_for(kind: MessageKind) -> FileParser {
    if kind == MessageKind::Crash {
        FileParser::CrashReport
    } else if spec_has_line_parser(kind) {
        FileParser::JsonLines
    } else {
        FileParser::Unsupported
    }
}

impl CatCommand {
    /// Decides how a classified file is to be read.
    pub fn parser_for(kind: MessageKind) -> (r: FileParser)
        ensures
            r == spec_parser_for(kind),
    {
        match kind {
            MessageKind::Crash => FileParser::CrashReport,
            MessageKind::AuthWebhookError => FileParser::Unsupported,
            _ => FileParser::JsonLines,
        }
    }
}

} // verus!
