//! The closed set of errors the library reports.
use vstd::prelude::*;

verus! {

/// Declares `std::io::Error`, which a filesystem failure carries.
#[verifier::external_type_specification]
#[verifier::external_body]
pub struct ExIoError(std::io::Error);

/// Declares `lopdf::Error`, which a failure to load a document carries.
#[verifier::external_type_specification]
#[verifier::external_body]
pub struct ExLopdfError(lopdf::Error);

/// Every error that this library can produce.
#[derive(Debug)]
pub enum ExtractError {
    /// A filesystem failure (loading a document, saving a file).
    IoError(std::io::Error),
    /// The document lacks its catalog, its pages or its trailer.
    InvalidPdf(String),
    /// The metadata chain could not be read, or strict validation rejected
    /// a document that does not declare PDF/A-3.
    NotPdfA3(String),
    /// Nothing was discovered, or nothing discovered could be resolved.
    NoEmbeddedFiles,
    /// One attachment (named first) could not be resolved, for the reason given.
    ExtractionError(String, String),
    /// The document loader failed.
    ParseError(lopdf::Error),
    /// A resolved attachment is larger than the configured limit.
    FileSizeExceeded,
}

} // verus!
