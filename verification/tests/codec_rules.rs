//! Reference codec: round trips, grammar rejections, pinning.

use modio_provider::cache::ModioCache;
use modio_provider::codec::{contains_preview_marker, format_spec, parse_reference};
use modio_provider::queries::is_pinned;
use modio_provider::types::ModSpecification;

#[test]
fn test_round_trip_mod_id() {
    let spec = format_spec("rock-drill", 3, None);
    assert_eq!(spec.url, "https://mod.io/g/drg/m/rock-drill#3");
    let parsed = parse_reference(&spec.url).expect("canonical reference must parse");
    assert_eq!(parsed.slug, "rock-drill");
    assert_eq!(parsed.mod_id, Some(3));
    assert_eq!(parsed.file_id, None);
}

#[test]
fn test_round_trip_file_id() {
    let spec = format_spec("some-mod", 4294967295, Some(12345));
    assert_eq!(spec.url, "https://mod.io/g/drg/m/some-mod#4294967295/12345");
    let parsed = parse_reference(&spec.url).expect("canonical reference must parse");
    assert_eq!(parsed.slug, "some-mod");
    assert_eq!(parsed.mod_id, Some(4294967295));
    assert_eq!(parsed.file_id, Some(12345));
}

#[test]
fn test_parse_slug_only() {
    let parsed = parse_reference("https://mod.io/g/drg/m/sandbox-utilities").unwrap();
    assert_eq!(parsed.slug, "sandbox-utilities");
    assert_eq!(parsed.mod_id, None);
    assert_eq!(parsed.file_id, None);
}

#[test]
fn test_parse_leading_zeros() {
    let parsed = parse_reference("https://mod.io/g/drg/m/x#007/0042").unwrap();
    assert_eq!(parsed.mod_id, Some(7));
    assert_eq!(parsed.file_id, Some(42));
}

#[test]
fn test_parse_rejects_bad_references() {
    // wrong host/path prefix
    assert!(parse_reference("https://example.com/g/drg/m/x#1").is_none());
    // empty slug
    assert!(parse_reference("https://mod.io/g/drg/m/#1").is_none());
    // slash in slug
    assert!(parse_reference("https://mod.io/g/drg/m/a/b#1").is_none());
    // non-numeric id
    assert!(parse_reference("https://mod.io/g/drg/m/a#one").is_none());
    // id out of range for u32
    assert!(parse_reference("https://mod.io/g/drg/m/a#4294967296").is_none());
    // trailing separator
    assert!(parse_reference("https://mod.io/g/drg/m/a#1/").is_none());
    // nothing after the prefix
    assert!(parse_reference("https://mod.io/g/drg/m/").is_none());
}

#[test]
fn test_preview_marker() {
    assert!(contains_preview_marker(
        "https://mod.io/g/drg/m/some-mod?preview=0123456789abcdef"
    ));
    assert!(!contains_preview_marker("https://mod.io/g/drg/m/some-mod"));
}

#[test]
fn test_is_pinned() {
    let cache = ModioCache::new(0);
    let pinned = ModSpecification::new("https://mod.io/g/drg/m/a#1/2".to_string());
    let unpinned = ModSpecification::new("https://mod.io/g/drg/m/a#1".to_string());
    let slug_only = ModSpecification::new("https://mod.io/g/drg/m/a".to_string());
    let invalid = ModSpecification::new("not a reference".to_string());
    assert!(is_pinned(&pinned, &cache));
    assert!(!is_pinned(&unpinned, &cache));
    assert!(!is_pinned(&slug_only, &cache));
    assert!(!is_pinned(&invalid, &cache));
}
