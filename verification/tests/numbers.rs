use rpg_raid_shop::numbers::{parse_u16, parse_u32, parse_unsigned_text, IntErrorKind};

#[test]
fn parses_plain_and_plus_signed_numbers() {
    assert_eq!(parse_u16("3000"), Ok(3000));
    assert_eq!(parse_u16("+80"), Ok(80));
    assert_eq!(parse_u16("0"), Ok(0));
    assert_eq!(parse_u16("65535"), Ok(65535));
    assert_eq!(parse_u32("4294967295"), Ok(u32::MAX));
}

#[test]
fn parse_errors_match_std() {
    for text in ["", "+", "-", "-1", "12a", "a12", "65536", "99999x", "1 2", " 1"] {
        let ours = parse_u16(text).map_err(|e| e.message().to_string());
        let std = text.parse::<u16>().map_err(|e| e.to_string());
        assert_eq!(ours, std, "input {:?}", text);
    }
}

#[test]
fn parse_error_kinds() {
    assert_eq!(parse_u16(""), Err(IntErrorKind::Empty));
    assert_eq!(parse_u16("+"), Err(IntErrorKind::InvalidDigit));
    assert_eq!(parse_u16("7000x"), Err(IntErrorKind::InvalidDigit));
    assert_eq!(parse_u16("70000"), Err(IntErrorKind::PosOverflow));
    assert_eq!(parse_u32("4294967296"), Err(IntErrorKind::PosOverflow));
    assert_eq!(parse_unsigned_text("10", 9), Err(IntErrorKind::PosOverflow));
}
