use legal_hold::text::{
    chars_of, decimal_text, parse_cursor, parse_integer, parse_revision, text_of, valid_id,
    valid_idempotency_key, valid_identifier, valid_text, MAX_IDEMPOTENCY_BYTES, MAX_ID_BYTES,
};

#[test]
fn every_character_is_classified_as_std_does() {
    for code in 0..=0x0010_ffff_u32 {
        let Some(c) = char::from_u32(code) else {
            continue;
        };
        let text = c.to_string();
        assert_eq!(valid_text(&text, 8, true), !c.is_control(), "{code:x}");
        assert_eq!(
            valid_text(&text, 8, false),
            !c.is_control() && !c.is_whitespace(),
            "{code:x}"
        );
        let within = format!("a{c}");
        assert_eq!(
            valid_identifier(&within, 8),
            !c.is_control() && !c.is_whitespace(),
            "{code:x}"
        );
    }
}

#[test]
fn text_is_measured_in_bytes() {
    assert!(valid_id(&"a".repeat(MAX_ID_BYTES)));
    assert!(!valid_id(&"a".repeat(MAX_ID_BYTES + 1)));
    assert!(valid_id(&"é".repeat(MAX_ID_BYTES / 2)));
    assert!(!valid_id(&format!("{}a", "é".repeat(MAX_ID_BYTES / 2))));
    assert!(valid_idempotency_key(&"k".repeat(MAX_IDEMPOTENCY_BYTES)));
    assert!(!valid_idempotency_key(&"k".repeat(MAX_IDEMPOTENCY_BYTES + 1)));
}

#[test]
fn blank_text_is_refused_unless_it_may_be_empty() {
    assert!(!valid_text("", 10, false));
    assert!(!valid_text(" \u{a0}\u{3000}", 10, false));
    assert!(valid_text("", 10, true));
    assert!(valid_text("  ", 10, true));
    assert!(valid_text(" a ", 10, false));
    assert!(!valid_text("a\nb", 10, true));
    assert!(!valid_identifier("two words", 256));
}

#[test]
fn integers_are_parsed_as_std_parses_them() {
    for text in [
        "", "+", "-", "0", "-0", "+0", "1", "+1", "-1", "007", "12", " 1", "1 ", "1_000", "1.0",
        "0x1", "--1", "+-1", "9223372036854775807", "9223372036854775808",
        "-9223372036854775808", "-9223372036854775809", "99999999999999999999999", "١",
        "00000000000000000000000000000000000001",
    ] {
        assert_eq!(parse_integer(text), text.parse::<i64>().ok(), "{text}");
        assert_eq!(
            parse_revision(text),
            text.parse::<i64>().ok().filter(|value| *value > 0),
            "{text}"
        );
        assert_eq!(
            parse_cursor(text),
            text.parse::<i64>().ok().filter(|value| *value >= 0),
            "{text}"
        );
    }
}

#[test]
fn decimal_text_reads_back() {
    for value in [0, 7, 10, 99, 100, -1, -42, i64::MAX, i64::MIN] {
        let text = decimal_text(value);
        assert_eq!(text, value.to_string());
        assert_eq!(parse_integer(&text), Some(value));
    }
}

#[test]
fn text_is_copied_whole() {
    assert_eq!(text_of("hold ⚖"), "hold ⚖");
    assert_eq!(chars_of("a⚖"), vec!['a', '⚖']);
}
