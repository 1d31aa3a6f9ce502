//! How a reconciliation fails.

use crate::kinds::Source;
use vstd::prelude::*;
use vstd::string::StringExecFns;

verus! {

/// The failure of a reconciliation. Every failure ends the whole
/// reconciliation; there is no partial result.
#[derive(Debug)]
pub enum DiffError {
    /// An input does not begin as an export of its source does.
    InvalidFormat { source: Source },
    /// An input could not be read as a table. `detail` is the reader's
    /// message.
    Parse { source: Source, detail: String },
    /// A table lacks a column that the rules need, or holds it in a type
    /// that they cannot compare. `detail` says which.
    Processing { detail: String },
}

/// What the inputs alone decide of a failure: its kind, its source, and its
/// detail where the library writes the detail itself or takes it from a parser
/// whose words depend on the parsed input alone. The detail is `None` where
/// `polars` writes it: its messages depend on the process's environment too.
pub enum Failure {
    InvalidFormat(Source),
    Parse(Source, Option<Seq<char>>),
    Processing(Option<Seq<char>>),
}

impl Failure {
    /// Whether the inputs decide the whole failure, its detail included.
    pub open spec fn is_stated(self) -> bool {
        match self {
            Failure::InvalidFormat(_) => true,
            Failure::Parse(_, detail) => detail is Some,
            Failure::Processing(detail) => detail is Some,
        }
    }
}

impl DiffError {
    /// Whether this is the given failure: of its kind, from its source, and
    /// with its detail where that is decided.
    pub open spec fn reports(&self, failure: Failure) -> bool {
        match (*self, failure) {
            (DiffError::InvalidFormat { source }, Failure::InvalidFormat(from)) => source == from,
            (DiffError::Parse { source, detail }, Failure::Parse(from, decided)) => source == from
                && (decided matches Some(text) ==> detail@ == text),
            (DiffError::Processing { detail }, Failure::Processing(decided)) => decided matches Some(
                text,
            ) ==> detail@ == text,
            _ => false,
        }
    }

    /// The sentence that reports the failure.
    pub open spec fn message_text(&self) -> Seq<char> {
        match self {
            DiffError::InvalidFormat { source: Source::Extranet } => "The provided Extranet report appears to be invalid."@,
            DiffError::InvalidFormat { source: Source::Operoo } => "The provided Operoo report appears to be invalid."@,
            DiffError::Parse { source: Source::Extranet, detail } => "Error while reading extranet data: "@
                + detail@,
            DiffError::Parse { source: Source::Operoo, detail } => "Error while reading operoo data: "@
                + detail@,
            DiffError::Processing { detail } => "Error while processing data: "@ + detail@,
        }
    }

    /// The sentence that reports the failure.
    pub fn message(&self) -> (text: String)
        ensures
            text@ == self.message_text(),
    {
        match self {
            DiffError::InvalidFormat { source: Source::Extranet } => String::from_str(
                "The provided Extranet report appears to be invalid.",
            ),
            DiffError::InvalidFormat { source: Source::Operoo } => String::from_str(
                "The provided Operoo report appears to be invalid.",
            ),
            DiffError::Parse { source: Source::Extranet, detail } => String::from_str(
                "Error while reading extranet data: ",
            ).concat(detail.as_str()),
            DiffError::Parse { source: Source::Operoo, detail } => String::from_str(
                "Error while reading operoo data: ",
            ).concat(detail.as_str()),
            DiffError::Processing { detail } => String::from_str(
                "Error while processing data: ",
            ).concat(detail.as_str()),
        }
    }
}

} // verus!
