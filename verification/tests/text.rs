use muxed::text::{i64_to_string, lines_of, parse_i32, parse_usize, replace_str, split_words, u64_to_string};

#[test]
fn lines_as_str_lines_gives_them() {
    for text in ["", "a", "a\n", "a\r\nb", "foo\r\nbar\n\nbaz\r", "\n", "\n\n", "x\r"] {
        let expected: Vec<String> = text.lines().map(|s| s.to_string()).collect();
        assert_eq!(lines_of(text), expected, "{:?}", text);
    }
}

#[test]
fn words_as_split_whitespace_gives_them() {
    for text in ["", "  ", "a b", " a\tb \n c ", "x\u{a0}y\u{3000}z", "one"] {
        let expected: Vec<String> = text.split_whitespace().map(|s| s.to_string()).collect();
        assert_eq!(split_words(text), expected, "{:?}", text);
    }
}

#[test]
fn numbers_parse_as_from_str_does() {
    for text in ["", "+", "-", "0", "-0", "+7", "2147483647", "2147483648", "-2147483648", "-2147483649", "12a", " 1"] {
        assert_eq!(parse_i32(text), text.parse::<i32>().ok(), "{:?}", text);
    }
    for text in ["", "+", "-1", "0", "+9", "18446744073709551615", "18446744073709551616", "1_0"] {
        assert_eq!(parse_usize(text), text.parse::<usize>().ok(), "{:?}", text);
    }
}

#[test]
fn numbers_render_in_decimal() {
    assert_eq!(u64_to_string(0), "0");
    assert_eq!(u64_to_string(18446744073709551615), "18446744073709551615");
    assert_eq!(i64_to_string(-9223372036854775808), "-9223372036854775808");
    assert_eq!(i64_to_string(42), "42");
}

#[test]
fn replacement_as_str_replace_does() {
    for (s, p, r) in [("aaaa", "aa", "b"), ("abc", "", "-"), ("", "", "x"), ("{file}{file}", "{file}", "F"), ("ab", "abc", "z"), ("xyx", "x", "")] {
        assert_eq!(replace_str(s, p, r), s.replace(p, r), "{:?}", (s, p, r));
    }
}
