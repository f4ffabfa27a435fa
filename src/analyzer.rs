//! The entry point: one loaded document with its configuration.
use vstd::prelude::*;
use crate::config::ExtractorConfig;
use crate::conformance::{
    declares_pdfa3, level_text, not_pdfa3_with_cause, structure_problem, well_formed, xmp_text,
    PdfValidator,
};
use crate::discovery::discovered;
use crate::embedded::{opt_string, EmbeddedFile};
use crate::error::ExtractError;
use crate::extraction::{extraction, failing_names, outcome_is, ExtractionEngine};
use crate::resolver::fails_for;
use crate::object::PdfDocument;

verus! {

/// Analysis and attachment extraction for one document.
pub struct PdfAnalyzer {
    document: PdfDocument,
    config: ExtractorConfig,
}

impl PdfAnalyzer {
    /// An analyzer over `document` with the default configuration.
    pub fn from_document(document: PdfDocument) -> (r: Self)
        ensures
            r.doc() == document,
            !r.cfg().strict_pdfa3_validation,
            r.cfg().max_embedded_file_size is None,
            !r.cfg().extract_to_disk,
            r.cfg().output_directory is None,
    {
        PdfAnalyzer { document, config: ExtractorConfig::default() }
    }

    /// An analyzer over `document` with `config`.
    pub fn with_document_config(document: PdfDocument, config: ExtractorConfig) -> (r: Self)
        ensures
            r.doc() == document,
            r.cfg() == config,
    {
        PdfAnalyzer { document, config }
    }

    pub closed spec fn doc(&self) -> PdfDocument {
        self.document
    }

    pub closed spec fn cfg(&self) -> ExtractorConfig {
        self.config
    }

    /// The document analysed.
    pub fn document(&self) -> (r: &PdfDocument)
        ensures
            *r == self.doc(),
    {
        &self.document
    }

    /// The active configuration.
    pub fn config(&self) -> (r: &ExtractorConfig)
        ensures
            *r == self.cfg(),
    {
        &self.config
    }

    /// `Ok(true)` when the document has a catalog, pages and a trailer;
    /// otherwise an `InvalidPdf` error naming the first that is missing.
    pub fn is_pdf(&self) -> (r: Result<bool, ExtractError>)
        ensures
            match structure_problem(self.doc()) {
                None => r == Ok::<bool, ExtractError>(true),
                Some(m) => r matches Err(ExtractError::InvalidPdf(x)) && x@ == m,
            },
            r is Ok <==> well_formed(self.doc()),
    {
        PdfValidator::new(&self.document).validate_pdf_structure()
    }

    /// Whether the XMP metadata declares PDF/A-3 (part 3 and a level among
    /// `A`, `B`, `U`). A `NotPdfA3` error when the XMP cannot be read, or in
    /// strict mode when the answer would be `false`.
    pub fn is_pdfa3(&self) -> (r: Result<bool, ExtractError>)
        ensures
            match xmp_text(self.doc()) {
                None => r matches Err(e) && not_pdfa3_with_cause(e),
                Some(x) => if self.cfg().strict_pdfa3_validation && !declares_pdfa3(x) {
                    r matches Err(e) && not_pdfa3_with_cause(e)
                } else {
                    r == Ok::<bool, ExtractError>(declares_pdfa3(x))
                },
            },
    {
        PdfValidator::new(&self.document).validate_pdfa3(&self.config)
    }

    /// The declared conformance level, such as `PDF/A-3B`.
    pub fn conformance_level(&self) -> (r: Option<String>)
        ensures
            opt_string(r) == match xmp_text(self.doc()) {
                Some(x) => level_text(x),
                None => None,
            },
    {
        PdfValidator::new(&self.document).conformance_level()
    }

    /// Whether any embedded-file specification is discovered.
    pub fn has_embedded_files(&self) -> (r: Result<bool, ExtractError>)
        ensures
            r == Ok::<bool, ExtractError>(discovered(self.doc()).len() > 0),
    {
        ExtractionEngine::new(&self.document, &self.config).has_files()
    }

    /// How many embedded-file specifications are discovered.
    pub fn count_embedded_files(&self) -> (r: Result<usize, ExtractError>)
        ensures
            r matches Ok(n) && n == discovered(self.doc()).len(),
    {
        ExtractionEngine::new(&self.document, &self.config).count_files()
    }

    /// The error of each discovered specification that fails to resolve, in
    /// discovery order: the attachments that an extraction leaves out.
    pub fn skipped_embedded_files(&self) -> (r: Vec<ExtractError>)
        ensures
            r@.len() == failing_names(self.doc(), discovered(self.doc()), 0).len(),
            forall|k: int|
                0 <= k < r@.len() ==> fails_for(
                    #[trigger] r@[k],
                    failing_names(self.doc(), discovered(self.doc()), 0)[k],
                ),
    {
        ExtractionEngine::new(&self.document, &self.config).skipped_files()
    }

    /// Extracts every attachment that resolves, decoded, in discovery order.
    /// `NoEmbeddedFiles` when nothing is discovered or nothing resolves;
    /// `FileSizeExceeded` as soon as a resolved file is over the configured
    /// limit. Writing to disk is left to the caller.
    pub fn extract_embedded_files(&self) -> (r: Result<Vec<EmbeddedFile>, ExtractError>)
        ensures
            outcome_is(r, extraction(self.doc(), self.cfg().max_embedded_file_size)),
    {
        ExtractionEngine::new(&self.document, &self.config).extract_all_files()
    }
}

} // verus!
