use code_report_rs::metrics::line_count;
use code_report_rs::metrics::size_kb;
use code_report_rs::metrics::split_lines;

#[test]
fn line_count_counts_newline_segments() {
    assert_eq!(line_count(&b"a\nb\n".to_vec()), 3);
    assert_eq!(line_count(&b"".to_vec()), 1);
    assert_eq!(line_count(&b"abc".to_vec()), 1);
    assert_eq!(line_count(&b"a\n\n\nb".to_vec()), 4);
    assert_eq!(line_count(&b"\n".to_vec()), 2);
}

#[test]
fn split_lines_drops_separators_and_keeps_trailing_empty_segment() {
    assert_eq!(
        split_lines(&b"a\nb\n".to_vec()),
        vec![b"a".to_vec(), b"b".to_vec(), b"".to_vec()]
    );
    assert_eq!(split_lines(&b"".to_vec()), vec![b"".to_vec()]);
    assert_eq!(split_lines(&b"abc".to_vec()), vec![b"abc".to_vec()]);
    assert_eq!(
        split_lines(&b"\n\n".to_vec()),
        vec![b"".to_vec(), b"".to_vec(), b"".to_vec()]
    );
}

#[test]
fn size_kb_is_truncating_division() {
    assert_eq!(size_kb(0), 0);
    assert_eq!(size_kb(1023), 0);
    assert_eq!(size_kb(1024), 1);
    assert_eq!(size_kb(2047), 1);
    assert_eq!(size_kb(2048), 2);
}
