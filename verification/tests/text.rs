use cfst::text::{
    chars_of, eq_ignore_ascii_case, is_white_space, parse_u16, split, tail_after, to_decimal, trim,
};

#[test]
fn white_space_is_unicode_white_space() {
    for c in '\0'..=char::MAX {
        assert_eq!(is_white_space(c), c.is_whitespace(), "{:?}", c);
    }
}

#[test]
fn decimal_numbers() {
    assert_eq!(to_decimal(0), "0");
    assert_eq!(to_decimal(9), "9");
    assert_eq!(to_decimal(10), "10");
    assert_eq!(to_decimal(1090), "1090");
    assert_eq!(to_decimal(u128::MAX), u128::MAX.to_string());
}

#[test]
fn characters_in_order() {
    assert_eq!(chars_of("aé测"), vec!['a', 'é', '测']);
    assert!(chars_of("").is_empty());
}

#[test]
fn splitting_as_std_does() {
    for s in ["", ",", "a", "a,b", ",a,,b,", "测,é"] {
        let expected: Vec<String> = s.split(',').map(str::to_owned).collect();
        assert_eq!(split(s, ','), expected, "{:?}", s);
    }
}

#[test]
fn pieces_put_together_are_the_text() {
    for s in ["", ",", "a,b", ",a,,b,"] {
        assert_eq!(split(s, ',').join(","), s);
    }
}

#[test]
fn trimming_as_std_does() {
    for s in ["", "  ", " a ", "a b", "\t\u{3000}测 \u{a0}", "\u{200b}x"] {
        assert_eq!(trim(s), s.trim(), "{:?}", s);
    }
}

#[test]
fn case_is_ignored_for_ascii_letters_only() {
    assert!(eq_ignore_ascii_case("hKg", "HkG"));
    assert!(eq_ignore_ascii_case("", ""));
    assert!(!eq_ignore_ascii_case("HKG", "HK"));
    assert!(!eq_ignore_ascii_case("é", "É"));
    assert!(!eq_ignore_ascii_case("[", "{"));
    assert!(!eq_ignore_ascii_case("@", "`"));
}

#[test]
fn tails_as_std_does() {
    for s in ["", "-", "a", "8c1-LAX", "a-b-c", "a-"] {
        assert_eq!(tail_after(s, '-'), s.rsplit('-').next().unwrap(), "{:?}", s);
    }
}

#[test]
fn numbers_as_std_does() {
    for s in [
        "", "+", "-", "-0", "+0", "0", "200", "+301", "++1", "65535", "65536", "00000000404", "4x4",
        " 4", "99999999999999999999", "６",
    ] {
        assert_eq!(parse_u16(s), s.parse::<u16>().ok(), "{:?}", s);
    }
    for n in 0..=u16::MAX {
        assert_eq!(parse_u16(&to_decimal(n as u128)), Some(n));
    }
}
