//! Extraction of embedded file attachments from PDF/A-3 documents, and
//! detection of PDF/A conformance from XMP metadata, over a plain model of a
//! document's object graph.
pub mod analyzer;
pub mod config;
pub mod conformance;
pub mod discovery;
pub mod embedded;
pub mod error;
pub mod extraction;
pub mod object;
pub mod resolver;
pub mod text;

pub use analyzer::PdfAnalyzer;
pub use config::ExtractorConfig;
pub use embedded::{EmbeddedFile, EmbeddedFileMetadata};
pub use error::ExtractError;
