//! Options of an extraction.
use vstd::prelude::*;

verus! {

/// Runtime configuration of a [`crate::analyzer::PdfAnalyzer`].
#[derive(Debug, Clone)]
pub struct ExtractorConfig {
    /// Turns a `false` conformance answer into a `NotPdfA3` error.
    pub strict_pdfa3_validation: bool,
    /// Any resolved attachment longer than this aborts the whole extraction.
    pub max_embedded_file_size: Option<usize>,
    /// With `output_directory`, each surviving file is also written to disk.
    pub extract_to_disk: bool,
    /// Directory used when `extract_to_disk` is set.
    pub output_directory: Option<String>,
}

impl Default for ExtractorConfig {
    fn default() -> (r: Self)
        ensures
            !r.strict_pdfa3_validation,
            r.max_embedded_file_size is None,
            !r.extract_to_disk,
            r.output_directory is None,
    {
        ExtractorConfig {
            strict_pdfa3_validation: false,
            max_embedded_file_size: None,
            extract_to_disk: false,
            output_directory: None,
        }
    }
}

} // verus!
