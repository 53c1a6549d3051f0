use swiss_knife::text::{
    byte_length, chars_of, contains_char, contains_chars, contains_text, is_text, join_texts,
    lower_code, occurs_at_pos, parse_u32, precedes, push_decimal, push_range, push_str,
    push_zero_padded, same_chars, same_ignoring_ascii_case, slice_of, split_chars, string_of,
    trim_char_of, trim_chars, trim_end_char_len, trim_start_char_pos, trim_start_matches_pos,
};

const SAMPLES: [&str; 14] = [
    "",
    " ",
    "a",
    "abc",
    "a,b,,c,",
    ",",
    "./././x",
    "  padded\t\n",
    "\u{a0}wide\u{3000}",
    "Timeout AND connection",
    "\u{e9}t\u{e9}",
    "\"quoted\"",
    "///",
    "x=y=z",
];

fn text(chars: &Vec<char>) -> String {
    string_of(chars)
}

#[test]
fn strings_and_characters_convert_both_ways() {
    for sample in SAMPLES {
        let chars = chars_of(sample);
        assert_eq!(chars, sample.chars().collect::<Vec<char>>());
        assert_eq!(string_of(&chars), sample);
        assert_eq!(byte_length(sample), sample.len());
        assert!(is_text(&chars, sample));
        assert!(same_chars(&chars, &chars.clone()));
    }
    assert!(!is_text(&chars_of("ab"), "abc"));
    assert!(!same_chars(&chars_of("ab"), &chars_of("ac")));
    let mut out = chars_of("ab");
    push_str(&mut out, "cd");
    push_range(&mut out, &chars_of("0123456"), 2, 5);
    assert_eq!(text(&out), "abcd234");
    assert_eq!(text(&slice_of(&chars_of("0123456"), 0, 0)), "");
    assert_eq!(text(&slice_of(&chars_of("0123456"), 5, 7)), "56");
}

#[test]
fn searching_agrees_with_std() {
    let patterns = ["", "a", "b,", "./", "connection", "xyz", ",,", "\u{e9}", "abc", "abcd"];
    for sample in SAMPLES {
        let chars = chars_of(sample);
        for pattern in patterns {
            assert_eq!(contains_text(&chars, pattern), sample.contains(pattern));
            assert_eq!(contains_chars(&chars, &chars_of(pattern)), sample.contains(pattern));
            assert_eq!(occurs_at_pos(&chars, &chars_of(pattern), 0), sample.starts_with(pattern));
        }
        for c in ['a', ',', ' ', '\u{e9}', '/'] {
            assert_eq!(contains_char(&chars, c), sample.contains(c));
        }
        assert!(!occurs_at_pos(&chars, &chars_of("a"), chars.len() + 5));
        assert!(occurs_at_pos(&chars, &chars_of(""), chars.len()));
    }
    assert!(occurs_at_pos(&chars_of("hello"), &chars_of("llo"), 2));
    assert!(!occurs_at_pos(&chars_of("hello"), &chars_of("llo"), 3));
}

#[test]
fn trimming_agrees_with_std() {
    for sample in SAMPLES {
        let chars = chars_of(sample);
        assert_eq!(text(&trim_chars(&chars)), sample.trim());
        for c in ['/', '"', ',', 'a', ' '] {
            assert_eq!(text(&trim_char_of(&chars, c)), sample.trim_matches(c));
            let end = trim_end_char_len(&chars, c);
            assert_eq!(text(&slice_of(&chars, 0, end)), sample.trim_end_matches(c));
            let start = trim_start_char_pos(&chars, c);
            assert_eq!(text(&slice_of(&chars, start, chars.len())), sample.trim_start_matches(c));
        }
        for pattern in ["./", "a", ",", "//", "abc"] {
            let start = trim_start_matches_pos(&chars, &chars_of(pattern));
            assert_eq!(
                text(&slice_of(&chars, start, chars.len())),
                sample.trim_start_matches(pattern)
            );
        }
    }
}

#[test]
fn splitting_agrees_with_std() {
    for sample in SAMPLES {
        for sep in [',', '=', '/', '.', ' ', '\n'] {
            let pieces: Vec<String> =
                split_chars(&chars_of(sample), sep).iter().map(text).collect();
            let expected: Vec<String> = sample.split(sep).map(str::to_string).collect();
            assert_eq!(pieces, expected);
            assert_eq!(join_texts(&pieces, &sep.to_string()), sample);
        }
    }
    assert_eq!(join_texts(&vec![], ", "), "");
    assert_eq!(join_texts(&vec!["a".to_string()], ", "), "a");
    assert_eq!(join_texts(&vec!["a".to_string(), String::new(), "b".to_string()], ", "), "a, , b");
}

#[test]
fn the_order_of_texts_is_that_of_str() {
    for a in SAMPLES {
        for b in SAMPLES {
            assert_eq!(precedes(&chars_of(a), &chars_of(b)), a <= b);
        }
    }
    assert!(precedes(&chars_of("Z"), &chars_of("a")));
    assert!(precedes(&chars_of("a"), &chars_of("\u{e9}")));
    assert!(precedes(&chars_of("\u{ffff}"), &chars_of("\u{10000}")));
}

#[test]
fn letter_case_of_ascii_only() {
    for (a, b) in [("", ""), ("abc", "ABC"), ("aBc1", "AbC1"), ("a", "b"), ("a", "ab")] {
        assert_eq!(same_ignoring_ascii_case(&chars_of(a), &chars_of(b)), a.eq_ignore_ascii_case(b));
    }
    assert!(!same_ignoring_ascii_case(&chars_of("\u{e9}"), &chars_of("\u{c9}")));
    assert!(!same_ignoring_ascii_case(&chars_of("@"), &chars_of("`")));
    assert!(!same_ignoring_ascii_case(&chars_of("["), &chars_of("{")));
    assert_eq!(lower_code('A'), 'a' as u32);
    assert_eq!(lower_code('Z'), 'z' as u32);
    assert_eq!(lower_code('a'), 'a' as u32);
    assert_eq!(lower_code('@'), '@' as u32);
}

#[test]
fn numbers_are_written_and_read() {
    for n in [0u64, 7, 10, 99, 100, 1234567890, u64::MAX] {
        let mut out = Vec::new();
        push_decimal(&mut out, n);
        assert_eq!(text(&out), n.to_string());
        for width in [0usize, 1, 3, 6, 25] {
            let mut padded = Vec::new();
            push_zero_padded(&mut padded, n, width);
            assert_eq!(text(&padded), format!("{:0width$}", n, width = width));
        }
    }
    for sample in ["", "+", "0", "+0", "00012", "4294967295", "4294967296", "12x", "-3", " 3", "+-3"] {
        assert_eq!(parse_u32(&chars_of(sample)), sample.parse::<u32>().ok());
    }
}
