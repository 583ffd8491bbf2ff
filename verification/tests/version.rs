use rumbac::bytes::{equal, find, matches_at};
use rumbac::error::Violation;
use rumbac::feats::Feats;
use rumbac::version::{capability_tag, parse_version, FEATS_PREFIX, FEATS_SUFFIX};

#[test]
fn markers_are_as_the_bootloader_writes_them() {
    assert_eq!(FEATS_PREFIX, "[Arduino:");
    assert_eq!(FEATS_SUFFIX, "]");
}

#[test]
fn extracts_tag_between_markers() {
    let reply = b"v1.1 [Arduino:IKXYZ] Dec 20 2016 12:00:00";
    assert_eq!(capability_tag(reply), Ok(&b"IKXYZ"[..]));
}

#[test]
fn extracts_empty_tag() {
    assert_eq!(capability_tag(b"[Arduino:]"), Ok(&b""[..]));
    assert_eq!(parse_version(b"[Arduino:]"), Ok(Feats::default()));
}

#[test]
fn tag_ends_at_first_closing_marker() {
    assert_eq!(capability_tag(b"x[Arduino:IK]Z]"), Ok(&b"IK"[..]));
}

#[test]
fn tag_begins_after_first_opening_marker() {
    assert_eq!(capability_tag(b"[Arduino:X[Arduino:Y]"), Ok(&b"X[Arduino:Y"[..]));
}

#[test]
fn closing_marker_before_the_tag_does_not_count() {
    assert_eq!(capability_tag(b"] [Arduino:XY"), Err(Violation::MissingSuffix));
    assert_eq!(capability_tag(b"a]b[Arduino:XY]c"), Ok(&b"XY"[..]));
}

#[test]
fn fails_without_opening_marker() {
    assert_eq!(capability_tag(b"v1.1 Dec 20 2016"), Err(Violation::MissingPrefix));
    assert_eq!(capability_tag(b""), Err(Violation::MissingPrefix));
    assert_eq!(capability_tag(b"[Arduino IKXYZ]"), Err(Violation::MissingPrefix));
    assert_eq!(parse_version(b"IKXYZ]"), Err(Violation::MissingPrefix));
}

#[test]
fn fails_without_closing_marker() {
    assert_eq!(capability_tag(b"v1.1 [Arduino:IKXYZ"), Err(Violation::MissingSuffix));
    assert_eq!(parse_version(b"[Arduino:"), Err(Violation::MissingSuffix));
}

#[test]
fn parses_capabilities_out_of_version() {
    let feats = parse_version(b"v2.0 [Arduino:XYZ] Mar  1 2020").unwrap();
    assert!(feats.chip_erase && feats.write_buffer && feats.checksum_buffer);
    assert!(!feats.identify_chip && !feats.reset);
}

#[test]
fn reports_unknown_capability() {
    assert_eq!(parse_version(b"[Arduino:IxK]"), Err(Violation::UnknownCapability(b'x')));
    assert_eq!(parse_version(b"[Arduino:[Arduino:]"), Err(Violation::UnknownCapability(b'[')));
}

#[test]
fn compares_byte_strings() {
    assert!(equal(b"abc", b"abc"));
    assert!(equal(b"", b""));
    assert!(!equal(b"abc", b"abd"));
    assert!(!equal(b"abc", b"ab"));
    assert!(!equal(b"", b"a"));
}

#[test]
fn finds_first_occurrence() {
    assert_eq!(find(b"abcabc", b"bc", 0), Some(1));
    assert_eq!(find(b"abcabc", b"bc", 2), Some(4));
    assert_eq!(find(b"abcabc", b"bc", 5), None);
    assert_eq!(find(b"abcabc", b"", 6), Some(6));
    assert_eq!(find(b"abcabc", b"", 7), None);
    assert_eq!(find(b"abc", b"abcd", 0), None);
    assert_eq!(find(b"aab", b"ab", 0), Some(1));
    assert!(matches_at(b"abc", b"bc", 1));
    assert!(!matches_at(b"abc", b"bc", 2));
    assert!(!matches_at(b"abc", b"bc", 9));
}
