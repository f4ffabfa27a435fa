use extractembedfilepdf::{EmbeddedFile, EmbeddedFileMetadata, ExtractorConfig};

#[test]
fn default_config_is_permissive() {
    let cfg = ExtractorConfig::default();
    assert!(!cfg.strict_pdfa3_validation);
    assert!(cfg.max_embedded_file_size.is_none());
    assert!(!cfg.extract_to_disk);
    assert!(cfg.output_directory.is_none());
}

#[test]
fn custom_config_round_trips() {
    let cfg = ExtractorConfig {
        strict_pdfa3_validation: true,
        max_embedded_file_size: Some(1024),
        extract_to_disk: true,
        output_directory: Some("./out".into()),
    };
    assert!(cfg.strict_pdfa3_validation);
    assert_eq!(cfg.max_embedded_file_size, Some(1024));
    assert!(cfg.extract_to_disk);
    assert_eq!(cfg.output_directory.as_deref(), Some("./out"));
}

fn make_file(filename: &str, data: &[u8]) -> EmbeddedFile {
    EmbeddedFile {
        filename: filename.into(),
        data: data.to_vec(),
        metadata: EmbeddedFileMetadata::default(),
    }
}

#[test]
fn extension_none_when_no_dot() {
    assert_eq!(make_file("readme", b"").extension(), None);
}

#[test]
fn extension_is_text_after_last_dot() {
    assert_eq!(make_file("factur-x.xml", b"").extension(), Some("xml"));
    assert_eq!(make_file("archive.tar.gz", b"").extension(), Some("gz"));
    assert_eq!(make_file(".hidden", b"").extension(), None);
    assert_eq!(make_file("trailing.", b"").extension(), Some(""));
}

#[test]
fn has_extension_ignores_ascii_case() {
    assert!(make_file("a.xml", b"").has_extension("xml"));
    assert!(make_file("A.XML", b"").has_extension("xml"));
    assert!(make_file("Factur-X.XML", b"").has_extension("xml"));
    assert!(!make_file("a.xmlx", b"").has_extension("xml"));
    assert!(!make_file("readme", b"").has_extension("xml"));
}

fn with_mime(mime: Option<&str>) -> EmbeddedFileMetadata {
    let mut m = EmbeddedFileMetadata::default();
    m.mime_type = mime.map(|s| s.to_string());
    m
}

#[test]
fn is_xml_looks_for_xml_in_any_case() {
    assert!(with_mime(Some("application/xml")).is_xml());
    assert!(with_mime(Some("TEXT/XML")).is_xml());
    assert!(!with_mime(Some("application/pdf")).is_xml());
    assert!(!with_mime(None).is_xml());
}

#[test]
fn has_mime_type_compares_without_case() {
    assert!(with_mime(Some("application/xml")).has_mime_type("Application/XML"));
    assert!(!with_mime(Some("application/xml")).has_mime_type("application/xm"));
    assert!(!with_mime(None).has_mime_type("application/xml"));
}

#[test]
fn default_metadata_is_empty() {
    let m = EmbeddedFileMetadata::default();
    assert!(m.mime_type.is_none());
    assert!(m.description.is_none());
    assert!(m.modification_date.is_none());
    assert!(m.creation_date.is_none());
    assert!(m.size.is_none());
    assert!(m.checksum.is_none());
}

#[test]
fn extension_of_path_is_that_of_final_component() {
    assert_eq!(make_file("dir/a.txt", b"").extension(), Some("txt"));
    assert_eq!(make_file("a.txt/", b"").extension(), Some("txt"));
    assert_eq!(make_file("a.txt/.", b"").extension(), Some("txt"));
    assert_eq!(make_file("dir.d/readme", b"").extension(), None);
    assert_eq!(make_file("dir/..", b"").extension(), None);
    assert_eq!(make_file("dir/.hidden", b"").extension(), None);
    assert_eq!(make_file("./", b"").extension(), None);
    assert_eq!(make_file("/", b"").extension(), None);
    assert!(make_file("out/A.XML", b"").has_extension("xml"));
}
