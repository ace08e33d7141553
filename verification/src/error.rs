//! What can go wrong.

use vstd::prelude::*;

verus! {

/// Why a file has no facts.
#[derive(Clone, Debug, PartialEq, Eq, Hash)]
pub enum CodegraphError {
    /// The file could not be parsed.
    Parse { path: String },
    /// The grammar refused a query.
    Query { path: String },
    /// No language is known for the file.
    Unsupported { path: String },
}

/// The contents of a [`CodegraphError`].
pub enum ErrorView {
    Parse { path: Seq<char> },
    Query { path: Seq<char> },
    Unsupported { path: Seq<char> },
}

impl View for CodegraphError {
    type V = ErrorView;

    open spec fn view(&self) -> ErrorView {
        match self {
            CodegraphError::Parse { path } => ErrorView::Parse { path: path@ },
            CodegraphError::Query { path } => ErrorView::Query { path: path@ },
            CodegraphError::Unsupported { path } => ErrorView::Unsupported { path: path@ },
        }
    }
}

} // verus!
