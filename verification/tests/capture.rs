use adsb_pipeline::capture::{captured_line, is_space};

#[test]
fn white_space_is_what_std_takes_for_it() {
    for code in 0u32..=0x10FFFF {
        if let Some(c) = char::from_u32(code) {
            assert_eq!(is_space(c), c.is_whitespace(), "U+{:04X}", code);
        }
    }
}

#[test]
fn captured_line_is_the_trimmed_text() {
    assert_eq!(captured_line("MSG,3,1\r\n"), Some("MSG,3,1".to_string()));
    assert_eq!(captured_line("  MSG, 3 ,1 \t"), Some("MSG, 3 ,1".to_string()));
    assert_eq!(captured_line("x"), Some("x".to_string()));
    assert_eq!(captured_line(" x"), Some("x".to_string()));
    assert_eq!(captured_line("x "), Some("x".to_string()));
}

#[test]
fn nothing_is_captured_from_white_space() {
    for s in ["", " ", "\n", "\r\n", " \t \u{3000}\u{85}\u{a0} "] {
        assert_eq!(captured_line(s), None, "{:?}", s);
    }
}

#[test]
fn captured_line_is_trimmed_as_std_trims() {
    let samples = [
        "", "a", " a", "a ", " a ", "\u{2003}a\u{2028}b\u{205f}", "\u{200b}a\u{200b}",
        "\u{180e}a", "\u{feff}a", "ä ö", "\n\n", "✈\n", "\u{1680}\u{202f}",
    ];
    for s in samples {
        let t = s.trim();
        let expected = if t.is_empty() { None } else { Some(t.to_string()) };
        assert_eq!(captured_line(s), expected, "{:?}", s);
    }
}
