use hotreload::extract::{extract_site_body, extract_span, offset_of_position};
use hotreload::location::relative_path;
use hotreload::parse::parse;

#[test]
fn parse_finds_sites_in_order() {
    let text = b"use x;\nfn main() { region!(\"one\") }\nregion!(\"two\")\n";
    let unit = parse(text).unwrap();
    assert_eq!(unit.sites.len(), 2);
    assert_eq!(unit.sites[0].line, 2);
    assert_eq!(unit.sites[0].col, 12);
    assert_eq!(unit.sites[0].body, b"one".to_vec());
    assert_eq!(unit.sites[1].line, 3);
    assert_eq!(unit.sites[1].col, 0);
    assert_eq!(unit.sites[1].body, b"two".to_vec());
}

#[test]
fn parse_without_sites_is_empty() {
    let unit = parse(b"fn main() {}\n").unwrap();
    assert_eq!(unit.sites.len(), 0);
}

#[test]
fn parse_rejects_unquoted_argument() {
    assert!(parse(b"region!(name)\n").is_none());
}

#[test]
fn parse_rejects_unterminated_body() {
    assert!(parse(b"region!(\"open\n").is_none());
}

#[test]
fn parse_rejects_missing_close_paren() {
    assert!(parse(b"region!(\"a\"\n").is_none());
}

#[test]
fn parse_rejects_marker_at_end() {
    assert!(parse(b"let x = region!(").is_none());
}

#[test]
fn two_sites_on_one_line_have_distinct_columns() {
    let text = b"region!(\"a\") region!(\"b\")\n";
    let unit = parse(text).unwrap();
    assert_eq!(unit.sites.len(), 2);
    assert_eq!(unit.sites[0].line, unit.sites[1].line);
    assert_eq!(unit.sites[0].col, 0);
    assert_eq!(unit.sites[1].col, 13);
}

#[test]
fn multiline_body_spans_lines() {
    let text = b"region!(\"first\nsecond\")\nfn f() {}\n";
    let unit = parse(text).unwrap();
    assert_eq!(unit.sites.len(), 1);
    assert_eq!(unit.sites[0].body, b"first\nsecond".to_vec());
}

#[test]
fn extract_slices_body_verbatim() {
    let text = b"pad region!(\" spaced \tbody \") pad";
    let unit = parse(text).unwrap();
    let body = extract_site_body(text, &unit.sites[0]);
    assert_eq!(body, b" spaced \tbody ".to_vec());
}

#[test]
fn relative_path_strips_project_root() {
    assert_eq!(relative_path(b"/proj", b"/proj/src/main.rs"), b"src/main.rs".to_vec());
}

#[test]
fn relative_path_keeps_foreign_path() {
    assert_eq!(relative_path(b"/proj", b"/other/src/main.rs"), b"/other/src/main.rs".to_vec());
}

#[test]
fn offsets_follow_lines_and_columns() {
    let text = b"ab\ncd\nef";
    assert_eq!(offset_of_position(text, 1, 0), Some(0));
    assert_eq!(offset_of_position(text, 2, 0), Some(3));
    assert_eq!(offset_of_position(text, 3, 2), Some(8));
    assert_eq!(offset_of_position(text, 4, 0), None);
    assert_eq!(offset_of_position(text, 2, 3), None);
    assert_eq!(offset_of_position(text, 0, 0), None);
}

#[test]
fn extract_span_slices_between_positions() {
    let text = b"ab\ncd\nef";
    assert_eq!(extract_span(text, 1, 1, 3, 1), Some(b"b\ncd\ne".to_vec()));
    assert_eq!(extract_span(text, 2, 0, 2, 2), Some(b"cd".to_vec()));
    assert_eq!(extract_span(text, 3, 1, 1, 0), None);
    assert_eq!(extract_span(text, 1, 0, 4, 0), None);
}
