use rumbac::feats::{Feats, ParseFeatsError};
use std::str::FromStr;

fn set(identify_chip: bool, reset: bool, chip_erase: bool, write_buffer: bool, checksum_buffer: bool) -> Feats {
    Feats { chip_erase, write_buffer, checksum_buffer, identify_chip, reset }
}

#[test]
fn decodes_every_code() {
    assert_eq!(Feats::from_str("IKXYZ"), Ok(set(true, true, true, true, true)));
}

#[test]
fn decodes_each_code_by_itself() {
    assert_eq!(Feats::from_str("I"), Ok(set(true, false, false, false, false)));
    assert_eq!(Feats::from_str("K"), Ok(set(false, true, false, false, false)));
    assert_eq!(Feats::from_str("X"), Ok(set(false, false, true, false, false)));
    assert_eq!(Feats::from_str("Y"), Ok(set(false, false, false, true, false)));
    assert_eq!(Feats::from_str("Z"), Ok(set(false, false, false, false, true)));
}

#[test]
fn decodes_empty_tag_to_empty_set() {
    assert_eq!(Feats::from_str(""), Ok(Feats::default()));
    assert_eq!(Feats::default(), set(false, false, false, false, false));
}

#[test]
fn decoding_ignores_order_and_repeats() {
    let expected = Ok(set(true, false, false, true, true));
    assert_eq!(Feats::from_str("IYZ"), expected);
    assert_eq!(Feats::from_str("ZYI"), expected);
    assert_eq!(Feats::from_str("YIZIYZZ"), expected);
    assert_ne!(Feats::from_str("IY"), expected);
}

#[test]
fn reports_first_unknown_byte() {
    assert_eq!(Feats::from_str("IKqXw"), Err(ParseFeatsError(b'q')));
    assert_eq!(Feats::from_str("w"), Err(ParseFeatsError(b'w')));
    assert_eq!(Feats::from_str("IKXYZ "), Err(ParseFeatsError(b' ')));
    assert_eq!(Feats::from_str("i"), Err(ParseFeatsError(b'i')));
}

#[test]
fn reports_first_byte_of_a_wide_character() {
    assert_eq!(Feats::from_str("I\u{e9}"), Err(ParseFeatsError(0xC3)));
}

#[test]
fn decodes_bytes_like_text() {
    assert_eq!(Feats::decode(b"KX"), Feats::from_str("KX"));
    assert_eq!(Feats::decode(&[b'K', 0]), Err(ParseFeatsError(0)));
    assert_eq!("XK".parse::<Feats>(), Feats::decode(b"KX"));
}
