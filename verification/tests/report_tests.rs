use code_report_rs::document::FileRecord;
use code_report_rs::report::ReportGen;
use docx_rs::BuildXML;
use std::io::Cursor;

fn record(path: &str, content: &[u8]) -> FileRecord {
    FileRecord::from_content(path.to_string(), &content.to_vec())
}

#[test]
fn rendered_document_holds_header_paths_metrics_and_content() {
    let records = vec![record("x.rs", b"hello world\nsecond\n")];
    let report = ReportGen::from_records(&records);
    let xml = report.into_docx().document.build();
    let text = String::from_utf8_lossy(&xml).into_owned();
    assert!(text.contains("File Name"));
    assert!(text.contains("Line Count"));
    assert!(text.contains("Size (KB)"));
    assert!(text.contains("x.rs"));
    assert!(text.contains("3"));
    assert!(text.contains("hello world"));
    assert!(text.contains("second"));
    // The heading is numbered, the body lines carry wrapping breaks, and
    // the body cell carries its fixed width.
    assert!(text.contains("numId"));
    assert!(text.contains("textWrapping"));
    assert!(text.contains("10000"));
}

#[test]
fn summary_table_precedes_the_body() {
    let records = vec![record("x.rs", b"body content here\n")];
    let xml = ReportGen::from_records(&records).into_docx().document.build();
    let text = String::from_utf8_lossy(&xml).into_owned();
    let header_at = text.find("File Name").expect("header label missing");
    let body_at = text.find("body content here").expect("body line missing");
    assert!(header_at < body_at);
}

#[test]
fn empty_record_list_renders_a_header_only_table() {
    let records: Vec<FileRecord> = Vec::new();
    let xml = ReportGen::from_records(&records).into_docx().document.build();
    let text = String::from_utf8_lossy(&xml).into_owned();
    assert_eq!(text.matches("<w:tbl>").count(), 1);
    assert!(text.contains("File Name"));
}

#[test]
fn each_record_adds_one_body_table() {
    let records = vec![record("x.rs", b"a\n"), record("y.go", b"b\n")];
    let xml = ReportGen::from_records(&records).into_docx().document.build();
    let text = String::from_utf8_lossy(&xml).into_owned();
    // one summary table plus one single-cell table per record
    assert_eq!(text.matches("<w:tbl>").count(), 3);
}

#[test]
fn rendered_text_drops_carriage_returns() {
    let records = vec![record("x.rs", b"alpha\r\nbeta\r\n")];
    let xml = ReportGen::from_records(&records).into_docx().document.build();
    let text = String::from_utf8_lossy(&xml).into_owned();
    assert!(text.contains("alpha"));
    assert!(text.contains("beta"));
    assert!(!text.contains('\r'));
}

#[test]
fn rendered_document_packs_into_an_archive() {
    let records = vec![record("x.rs", b"a\nb\n")];
    let report = ReportGen::from_records(&records);
    let mut buf: Vec<u8> = Vec::new();
    report
        .into_docx()
        .build()
        .pack(Cursor::new(&mut buf))
        .expect("packing the document should succeed");
    assert!(!buf.is_empty());
}

#[test]
fn report_gen_wraps_an_existing_document() {
    let report = ReportGen::new(docx_rs::Docx::new());
    let xml = report.into_docx().document.build();
    assert!(!xml.is_empty());
}
