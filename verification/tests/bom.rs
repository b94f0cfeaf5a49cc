use knack::bom::{strip_utf8_bom, strip_utf8_bom_str};
use knack::yaml::{meta_version, read_meta_version, version_or_zero};

#[test]
fn strips_bom_bytes() {
    assert_eq!(strip_utf8_bom(b"\xef\xbb\xbfslug: x"), b"slug: x");
    assert_eq!(strip_utf8_bom(b"slug: x"), b"slug: x");
    assert_eq!(strip_utf8_bom(b""), b"");
}

#[test]
fn strips_bom_char() {
    assert_eq!(strip_utf8_bom_str("\u{feff}slug: x"), "slug: x");
    assert_eq!(strip_utf8_bom_str("slug: x"), "slug: x");
}

#[test]
fn strips_only_one_leading_bom() {
    assert_eq!(strip_utf8_bom(b"\xef\xbb\xbf\xef\xbb\xbfx"), b"\xef\xbb\xbfx");
}

#[test]
fn partial_bom_is_content() {
    assert_eq!(strip_utf8_bom(b"\xef\xbb"), b"\xef\xbb");
    assert_eq!(strip_utf8_bom(b"\xef\xbbx"), b"\xef\xbbx");
    assert_eq!(strip_utf8_bom_str(""), "");
    assert_eq!(strip_utf8_bom_str("\u{feff}\u{feff}x"), "\u{feff}x");
}

#[test]
fn meta_version_reads_bom_tolerant_yaml() {
    let meta = "\u{feff}slug: s\nversion: 1.2.3\n";
    assert_eq!(meta_version(meta.as_bytes()).as_deref(), Some("1.2.3"));
}

#[test]
fn meta_version_wants_a_string() {
    assert_eq!(meta_version(b"slug: s\n"), None);
    assert_eq!(meta_version(b"version: 12\n"), None);
    assert_eq!(meta_version(b"version: [1, 2]\n"), None);
    assert_eq!(meta_version(b": : :\n\t"), None);
    assert_eq!(meta_version(b"version: '7'\n").as_deref(), Some("7"));
}

#[test]
fn registry_version_falls_back_to_zero() {
    assert_eq!(read_meta_version(&None), "0.0.0");
    assert_eq!(read_meta_version(&Some(b"slug: s\n".to_vec())), "0.0.0");
    assert_eq!(read_meta_version(&Some(b"{broken".to_vec())), "0.0.0");
    assert_eq!(read_meta_version(&Some(b"version: 2.0.1\n".to_vec())), "2.0.1");
    assert_eq!(version_or_zero(None), "0.0.0");
    assert_eq!(version_or_zero(Some("3.1.4".to_string())), "3.1.4");
}
