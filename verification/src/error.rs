//! What can keep a lab note from being written.

use vstd::prelude::*;

verus! {

/// Why a lab note could not be written.
#[derive(Debug, PartialEq, Eq)]
pub enum MarkdownError {
    /// The text is no HTML that the parser accepts; with the parser's
    /// message.
    InvalidHtml(String),
    /// A list of the questions is nested too deeply, or has too many items,
    /// for the integers that count them.
    LimitExceeded,
}

} // verus!
