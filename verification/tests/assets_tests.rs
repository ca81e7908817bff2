use web_migration::assets::derive_local_name;
use web_migration::assets::resolve;
use web_migration::assets::strip_trailing_slash;

#[test]
fn resolve_prefixes_root_relative() {
    let r = resolve(b"/sites/default/files/doc.pdf", b"https://example.org").unwrap();
    assert_eq!(r, b"https://example.org/sites/default/files/doc.pdf".to_vec());
}

#[test]
fn resolve_keeps_absolute() {
    let r = resolve(b"https://elsewhere.net/x.png", b"https://example.org").unwrap();
    assert_eq!(r, b"https://elsewhere.net/x.png".to_vec());
}

#[test]
fn resolve_skips_empty_match() {
    assert!(resolve(b"", b"https://example.org").is_none());
}

#[test]
fn local_name_takes_last_segment() {
    assert_eq!(derive_local_name("https://example.org/a/b/doc.pdf"), "doc.pdf");
}

#[test]
fn local_name_strips_query() {
    assert_eq!(derive_local_name("https://example.org/a/doc.pdf?v=2&x=/y"), "doc.pdf");
}

#[test]
fn local_name_decodes_spaces() {
    assert_eq!(derive_local_name("https://example.org/a/my%20file%20name.pdf"), "my file name.pdf");
}

#[test]
fn local_name_falls_back_on_empty_segment() {
    assert_eq!(derive_local_name("https://example.org/a/b/"), "tmp.bin");
    assert_eq!(derive_local_name("https://example.org/a/?q=1"), "tmp.bin");
}

#[test]
fn strip_trailing_slash_once() {
    assert_eq!(strip_trailing_slash("https://example.org/"), "https://example.org");
    assert_eq!(strip_trailing_slash("https://example.org"), "https://example.org");
    assert_eq!(strip_trailing_slash(""), "");
}
