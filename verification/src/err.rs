//! Error taxonomy of the downloader core.

use vstd::prelude::*;

verus! {

/// One error type for the whole pipeline.
///
/// - `ParseError`: a script block is not syntactically valid script source.
/// - `NotFound`: a script block is valid but holds no matching assignment.
/// - `MetadataNotFound`: no script block of the page yielded metadata.
/// - `TitleMissing` / `TitleAmbiguous`: the page has zero / more than one
///   `h1` element.
/// - `DecodeError`: the metadata text is not valid JSON, or a required
///   field is missing or has the wrong type; `path` names the offending
///   field.
/// - `ResourceNotFound`: a quality tier has no backing variant, or the
///   audio variant set is empty.
/// - `QualityLabelMissing`: a quality id has no index-aligned label.
/// - `FetchError`: the transport failed, or handed back a body that cannot
///   be used (for example one that is not valid UTF-8).
/// - `MergeError`: the external merge tool exited abnormally or with a
///   non-zero code; the captured output is kept for diagnostics.
#[derive(Debug, Clone)]
pub enum DlError {
    ParseError,
    NotFound,
    MetadataNotFound,
    TitleMissing,
    TitleAmbiguous,
    DecodeError { path: Vec<u8> },
    ResourceNotFound,
    QualityLabelMissing,
    FetchError { message: Vec<u8> },
    MergeError { exit_code: Option<i32>, stdout: Vec<u8>, stderr: Vec<u8> },
}

/// Error of catalog validation: a quality id advertised by a variant has no
/// human-readable description.
#[derive(Debug, Clone)]
pub struct VideoParseError {
    message: String,
}

impl VideoParseError {
    /// The diagnostic text, as a sequence of characters.
    pub closed spec fn spec_message(&self) -> Seq<char> {
        self.message@
    }

    pub fn new(message: String) -> (r: Self)
        ensures
            r.spec_message() == message@,
    {
        VideoParseError { message }
    }

    /// The diagnostic text carried by this error.
    pub fn message(&self) -> (r: &String)
        ensures
            r@ == self.spec_message(),
    {
        &self.message
    }
}

} // verus!
