//! What can stop a server from starting.

use vstd::prelude::*;
use vstd::string::StringExecFns;

verus! {

/// Why a description could not be turned into a running server. Each case
/// carries the words of the failure underneath it.
#[derive(Clone, Debug, PartialEq, Eq)]
pub enum AppError {
    /// The description is not a valid API description.
    ParseError(String),
    /// The description file could not be read.
    FileError(String),
    /// The description is not well-formed YAML of the expected shape.
    YamlError(String),
    /// The server failed while it was running.
    InternalSeverError(String),
}

impl AppError {
    /// The sentence that reports this error.
    pub open spec fn message_text(self) -> Seq<char> {
        match self {
            AppError::ParseError(detail) => "Failed to pase OpenAPI spec: "@ + detail@,
            AppError::FileError(detail) => "Failed to read file: "@ + detail@,
            AppError::YamlError(detail) => "YAML parsing error: "@ + detail@,
            AppError::InternalSeverError(detail) => "Internal server error: "@ + detail@,
        }
    }

    /// Writes out the sentence that reports this error.
    pub fn message(&self) -> (text: String)
        ensures
            text@ == self.message_text(),
    {
        match self {
            AppError::ParseError(detail) => String::from_str(
                "Failed to pase OpenAPI spec: ",
            ).concat(detail.as_str()),
            AppError::FileError(detail) => String::from_str("Failed to read file: ").concat(
                detail.as_str(),
            ),
            AppError::YamlError(detail) => String::from_str("YAML parsing error: ").concat(
                detail.as_str(),
            ),
            AppError::InternalSeverError(detail) => String::from_str(
                "Internal server error: ",
            ).concat(detail.as_str()),
        }
    }
}

} // verus!
