use web_migration::scanner::bytes_match;
use web_migration::scanner::contains_pat;
use web_migration::scanner::find_pat;
use web_migration::scanner::proper_scan_bytes;

fn scan_links(body: &[u8]) -> Vec<Vec<u8>> {
    proper_scan_bytes(
        body,
        b"id=\"content\"",
        b"class=\"layout-csun--footer\"",
        b"<a ",
        b"href",
        b"/sites/default/files/",
        b"\"",
    )
}

#[test]
fn scan_extracts_single_link() {
    let body = b"<div id=\"content\"><a href=\"/sites/default/files/doc.pdf\">x</a></div><div class=\"layout-csun--footer\">";
    let scan = scan_links(body);
    assert_eq!(scan.len(), 1);
    assert_eq!(scan[0], b"/sites/default/files/doc.pdf".to_vec());
}

#[test]
fn scan_without_region_start_is_empty() {
    let body = b"<div id=\"other\"><a href=\"/sites/default/files/doc.pdf\">x</a></div>";
    let scan = scan_links(body);
    assert!(scan.is_empty());
}

#[test]
fn scan_is_idempotent() {
    let body = b"<div id=\"content\"><a href=\"/sites/default/files/a.pdf\">x</a><a href=\"/sites/default/files/b.pdf\">y</a><div class=\"layout-csun--footer\">";
    let first = scan_links(body);
    let second = scan_links(body);
    assert_eq!(first, second);
    assert_eq!(first.len(), 2);
}

#[test]
fn scan_values_contain_filter() {
    let body = b"<div id=\"content\"><a href=\"/sites/default/files/a.pdf\">x</a><a href=\"/elsewhere/b.pdf\">y</a><div class=\"layout-csun--footer\">";
    let scan = scan_links(body);
    assert_eq!(scan.len(), 1);
    for v in &scan {
        let s = String::from_utf8_lossy(v);
        assert!(s.contains("/sites/default/files/"));
    }
}

#[test]
fn duplicate_value_yields_one_entry() {
    let body = b"<div id=\"content\"><a href=\"/sites/default/files/same.pdf\">x</a><a href=\"/sites/default/files/same.pdf\">y</a><div class=\"layout-csun--footer\">";
    let scan = scan_links(body);
    assert_eq!(scan.len(), 1);
    assert_eq!(scan[0], b"/sites/default/files/same.pdf".to_vec());
}

#[test]
fn scan_stops_at_region_end() {
    let body = b"<div id=\"content\"><div class=\"layout-csun--footer\"><a href=\"/sites/default/files/late.pdf\">x</a>";
    let scan = scan_links(body);
    assert!(scan.is_empty());
}

#[test]
fn scan_drops_value_without_terminator() {
    let body = b"<div id=\"content\"><a href=\"/sites/default/files/unterminated";
    let scan = scan_links(body);
    assert!(scan.is_empty());
}

#[test]
fn scan_finds_images_too() {
    let body = b"<main id=\"content\"><img src=\"/sites/default/files/pic.png\" alt=\"p\"><span class=\"layout-csun--footer\">";
    let scan = proper_scan_bytes(
        body,
        b"id=\"content\"",
        b"class=\"layout-csun--footer\"",
        b"<img ",
        b"src",
        b"/sites/default/files/",
        b"\"",
    );
    assert_eq!(scan.len(), 1);
    assert_eq!(scan[0], b"/sites/default/files/pic.png".to_vec());
}

#[test]
fn bytes_match_counts_common_prefix() {
    assert_eq!(bytes_match(b"abcde", b"abcxx", 0), 3);
    assert_eq!(bytes_match(b"abc", b"abc", 0), 3);
    assert_eq!(bytes_match(b"xyz", b"abc", 0), 0);
    assert_eq!(bytes_match(b"", b"abc", 5), 5);
    assert_eq!(bytes_match(b"ab", b"abcd", 2), 4);
}

#[test]
fn find_pat_first_occurrence() {
    assert_eq!(find_pat(b"abcabc", 0, b"bc"), Some(1));
    assert_eq!(find_pat(b"abcabc", 2, b"bc"), Some(4));
    assert_eq!(find_pat(b"abcabc", 0, b"zz"), None);
    assert_eq!(find_pat(b"abc", 0, b""), Some(0));
}

#[test]
fn contains_pat_substring() {
    assert!(contains_pat(b"hello world", b"o w"));
    assert!(!contains_pat(b"hello world", b"xyz"));
    assert!(contains_pat(b"anything", b""));
}
