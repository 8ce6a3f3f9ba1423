use code_report_rs::document::build_document;
use code_report_rs::document::BodySection;
use code_report_rs::document::FileRecord;
use code_report_rs::document::ReportBuilder;
use code_report_rs::document::SummaryRow;

fn record(path: &str, content: &[u8]) -> FileRecord {
    FileRecord::from_content(path.to_string(), &content.to_vec())
}

#[test]
fn record_holds_path_metrics_and_lines() {
    let r = record("x.rs", b"a\nb\n");
    assert_eq!(r.path, "x.rs");
    assert_eq!(r.line_count, 3);
    assert_eq!(r.size_kb, 0);
    assert_eq!(r.lines, vec![b"a".to_vec(), b"b".to_vec(), b"".to_vec()]);
}

#[test]
fn table_and_body_list_the_same_files_in_the_same_order() {
    let records = vec![record("x.rs", b"a\nb\n"), record("y.go", b"one line")];
    let d = build_document(&records);
    assert_eq!(d.rows.len(), 2);
    assert_eq!(d.sections.len(), 2);
    for i in 0..d.rows.len() {
        assert_eq!(d.rows[i].path, d.sections[i].title);
    }
    assert_eq!(d.rows[0].path, "x.rs");
    assert_eq!(d.rows[1].path, "y.go");
}

#[test]
fn metrics_appear_as_decimal_text() {
    let big = vec![b'a'; 3000];
    let records = vec![record("x.rs", b"a\nb\n"), record("big.rs", &big)];
    let d = build_document(&records);
    assert_eq!(d.rows[0].line_count_text, "3");
    assert_eq!(d.rows[0].size_kb_text, "0");
    assert_eq!(d.rows[1].line_count_text, "1");
    assert_eq!(d.rows[1].size_kb_text, "2");
}

#[test]
fn body_sections_reproduce_content_lines() {
    let records = vec![record("x.rs", b"fn main() {}\nlet y = 1;\n")];
    let d = build_document(&records);
    assert_eq!(
        d.sections[0].lines,
        vec![b"fn main() {}".to_vec(), b"let y = 1;".to_vec(), b"".to_vec()]
    );
}

#[test]
fn rebuilding_from_the_same_input_reproduces_the_document() {
    let make = || vec![record("x.rs", b"a\nb\n"), record("y.go", b"one line")];
    let d1 = build_document(&make());
    let d2 = build_document(&make());
    assert_eq!(d1.rows.len(), d2.rows.len());
    for i in 0..d1.rows.len() {
        assert_eq!(d1.rows[i].path, d2.rows[i].path);
        assert_eq!(d1.rows[i].line_count_text, d2.rows[i].line_count_text);
        assert_eq!(d1.rows[i].size_kb_text, d2.rows[i].size_kb_text);
    }
    assert_eq!(d1.sections.len(), d2.sections.len());
    for i in 0..d1.sections.len() {
        assert_eq!(d1.sections[i].title, d2.sections[i].title);
        assert_eq!(d1.sections[i].lines, d2.sections[i].lines);
    }
}

#[test]
fn a_fresh_document_holds_no_stale_rows() {
    let first = vec![record("old.rs", b"gone\n")];
    let _ = build_document(&first);
    let second = vec![record("new.rs", b"kept\n")];
    let d = build_document(&second);
    assert_eq!(d.rows.len(), 1);
    assert_eq!(d.rows[0].path, "new.rs");
    assert_eq!(d.sections.len(), 1);
    assert_eq!(d.sections[0].title, "new.rs");
}

#[test]
fn builder_accumulates_rows_and_sections_in_order() {
    let mut b = ReportBuilder::new();
    b.add_table_row(SummaryRow {
        path: "a.rs".to_string(),
        line_count_text: "1".to_string(),
        size_kb_text: "0".to_string(),
    });
    b.add_body_section(BodySection { title: "a.rs".to_string(), lines: vec![b"x".to_vec()] });
    b.add_table_row(SummaryRow {
        path: "b.rs".to_string(),
        line_count_text: "2".to_string(),
        size_kb_text: "1".to_string(),
    });
    b.add_body_section(BodySection { title: "b.rs".to_string(), lines: vec![b"y".to_vec()] });
    let d = b.finalize();
    assert_eq!(d.rows.len(), 2);
    assert_eq!(d.rows[0].path, "a.rs");
    assert_eq!(d.rows[1].path, "b.rs");
    assert_eq!(d.sections[0].title, "a.rs");
    assert_eq!(d.sections[1].lines, vec![b"y".to_vec()]);
}
