use server_kit::number::{decimal_text, parse_number};
use server_kit::text::{
    has_text, join_first, same_text, split_at_char, split_words, strip_prefixes, trim, trim_ends,
    trim_tail, CharClass,
};

fn samples() -> Vec<&'static str> {
    vec![
        "",
        " ",
        "a",
        "/",
        "//",
        "/a/b",
        "a b  c",
        "  GET  /x \r\n",
        "\u{85}\u{a0}x y\u{2003}z\u{3000}",
        "key: value: more",
        "<<a@b>>\r\n",
        "FROM:FROM:from:<x>",
        "tail\r\n\n\r",
        "가나다 라",
        "..",
        "a..b",
        "???",
        ".",
    ]
}

#[test]
fn white_space_is_that_of_unicode() {
    for code in 0..=0x10ffffu32 {
        if let Some(c) = char::from_u32(code) {
            assert_eq!(CharClass::White.contains(c), c.is_whitespace(), "{}", code);
        }
    }
}

#[test]
fn line_breaks_and_address_marks() {
    for code in 0..0x300u32 {
        if let Some(c) = char::from_u32(code) {
            assert_eq!(CharClass::LineBreak.contains(c), c == '\r' || c == '\n');
            assert_eq!(
                CharClass::AddressMark.contains(c),
                c == '<' || c == '>' || c == '\r' || c == '\n'
            );
        }
    }
}

#[test]
fn trimming_is_that_of_str() {
    for s in samples() {
        assert_eq!(trim(s), s.trim());
        assert_eq!(trim_tail(s, CharClass::LineBreak), s.trim_end_matches(&['\r', '\n'][..]));
        assert_eq!(
            trim_ends(s, CharClass::AddressMark),
            s.trim_matches(&['<', '>', '\r', '\n'][..])
        );
        assert_eq!(strip_prefixes(s, "FROM:"), s.trim_start_matches("FROM:"));
    }
}

#[test]
fn splitting_is_that_of_str() {
    for s in samples() {
        for sep in ['/', ' ', ':', '?', '.'] {
            let expected: Vec<&str> = s.split(sep).collect();
            assert_eq!(split_at_char(s, sep), expected);
        }
        let expected: Vec<&str> = s.split_whitespace().collect();
        assert_eq!(split_words(s), expected);
    }
}

#[test]
fn pieces_join_to_the_text() {
    for s in samples() {
        let pieces = split_at_char(s, '/');
        assert_eq!(join_first(&pieces, pieces.len(), '/'), s);
    }
    let pieces = split_at_char("/a/b/c", '/');
    assert_eq!(join_first(&pieces, 0, '/'), "");
    assert_eq!(join_first(&pieces, 1, '/'), "");
    assert_eq!(join_first(&pieces, 3, '/'), "/a/b");
}

#[test]
fn splitting_at_a_separator_splits_both_sides() {
    let whole = split_at_char("a/b/c/d", '/');
    let mut both = split_at_char("a/b", '/');
    both.extend(split_at_char("c/d", '/'));
    assert_eq!(whole, both);
}

#[test]
fn containment_and_equality_are_those_of_str() {
    for s in samples() {
        for pattern in ["", "..", "a", "gzip", "/a", "가"] {
            assert_eq!(has_text(s, pattern), s.contains(pattern));
        }
        for t in samples() {
            assert_eq!(same_text(s, t), s == t);
        }
    }
}

#[test]
fn numbers_are_written_in_decimal() {
    for n in [0u64, 1, 9, 10, 21, 404, 65535, 4294967295, 18446744073709551615] {
        assert_eq!(decimal_text(n), n.to_string());
    }
}

#[test]
fn numbers_are_read_as_str_reads_them() {
    for s in [
        "", "0", "7", "007", "+5", "+", "-", "-0", "-1", "++1", " 5", "5 ", "1_000", "0x10", "12a",
        "18446744073709551615", "18446744073709551616", "99999999999999999999999", "\u{663}",
        "00000000000000000000000000001",
    ] {
        assert_eq!(parse_number(s), s.parse::<usize>().ok(), "{}", s);
    }
}

#[test]
fn written_numbers_are_read_back() {
    for n in [0usize, 1, 10, 4096, 65536, usize::MAX] {
        assert_eq!(parse_number(decimal_text(n as u64).as_str()), Some(n));
    }
}
