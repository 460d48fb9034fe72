use open_soundpad_core::text::{
    append_decimal, char_vec, find_text, is_white_space_char, parse_usize_chars, split_words,
    trimmed_chars,
};

fn chars(s: &str) -> Vec<char> {
    s.chars().collect()
}

#[test]
fn white_space_matches_std() {
    for code in 0u32..0x11_0000 {
        if let Some(c) = char::from_u32(code) {
            assert_eq!(is_white_space_char(c), c.is_whitespace(), "code point {:x}", code);
        }
    }
    assert!(!is_white_space_char('a'));
    assert!(is_white_space_char('\u{3000}'));
}

#[test]
fn char_vec_keeps_every_char() {
    assert_eq!(char_vec("aé ✓"), vec!['a', 'é', ' ', '✓']);
    assert_eq!(char_vec(""), Vec::<char>::new());
}

#[test]
fn split_words_matches_std() {
    let lines = [
        "",
        "   ",
        "exit",
        "  play  abc \n",
        "upload drum\t/tmp/drum.mp3\r\n",
        "a\u{3000}b\u{2028}c",
        "é  ü",
    ];
    for line in lines {
        let expected: Vec<String> = line.split_whitespace().map(|w| w.to_string()).collect();
        assert_eq!(split_words(line), expected, "line {:?}", line);
    }
    assert_eq!(split_words("  play  abc \n"), vec!["play".to_string(), "abc".to_string()]);
}

#[test]
fn trailing_newline_changes_no_word() {
    assert_eq!(split_words("list x\n"), split_words("list x"));
    assert_eq!(split_words("list x \u{85}"), split_words("list x"));
}

#[test]
fn trim_matches_std() {
    for line in ["", " ", " \t 12 \n", "12", "\u{a0}x y\u{3000}", "  a  "] {
        assert_eq!(trimmed_chars(line), chars(line.trim()), "line {:?}", line);
    }
    assert_eq!(trimmed_chars(" \t 12 \n"), vec!['1', '2']);
}

#[test]
fn parse_usize_matches_std() {
    let inputs = [
        "42",
        "+7",
        "-1",
        "",
        "+",
        "0012",
        "1a",
        " 1",
        "18446744073709551615",
        "18446744073709551616",
        "99999999999999999999999",
        "4294967295",
        "4294967296",
    ];
    for s in inputs {
        assert_eq!(parse_usize_chars(&chars(s)), s.parse::<usize>().ok(), "input {:?}", s);
    }
    assert_eq!(parse_usize_chars(&chars("+7")), Some(7));
    assert_eq!(parse_usize_chars(&chars("-1")), None);
    assert_eq!(parse_usize_chars(&chars("")), None);
}

#[test]
fn decimal_text_is_display() {
    for n in [0u64, 1, 9, 10, 42, 1234, 48000, u32::MAX as u64, u64::MAX] {
        let mut s = String::from("x=");
        append_decimal(&mut s, n);
        assert_eq!(s, format!("x={}", n));
    }
}

#[test]
fn decimal_text_parses_back() {
    for n in [0usize, 1, 7, 10, 99, 100, 65535, 123456789] {
        let mut s = String::new();
        append_decimal(&mut s, n as u64);
        assert_eq!(parse_usize_chars(&chars(&s)), Some(n));
    }
}

#[test]
fn find_text_finds_runs() {
    assert!(find_text(&chars("VB-AUDIO"), &chars("VB")));
    assert!(find_text(&chars("MY CABLE"), &chars("CABLE")));
    assert!(!find_text(&chars("CABL"), &chars("CABLE")));
    assert!(find_text(&chars("abc"), &chars("")));
    assert!(!find_text(&chars("V B"), &chars("VB")));
}
