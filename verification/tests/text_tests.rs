use store_create::text;

#[test]
fn numbers_are_read_as_the_standard_library_reads_them() {
    for s in [
        "0", "7", "-7", "+7", "", "-", "+", "--1", "+-1", "1 ", " 1", "1_0", "12a", "00012",
        "9223372036854775807", "9223372036854775808", "-9223372036854775808",
        "-9223372036854775809", "99999999999999999999999999", "٣",
    ] {
        assert_eq!(text::parse_i64(s), s.parse::<i64>().ok(), "{}", s);
    }
    assert_eq!(text::parse_i64("-42"), Some(-42));
}

#[test]
fn numbers_are_written_in_decimal() {
    assert_eq!(text::decimal_text(0), "0");
    assert_eq!(text::decimal_text(10), "10");
    assert_eq!(text::decimal_text(usize::MAX), usize::MAX.to_string());
}

#[test]
fn needles_are_found() {
    assert!(text::contains("wsl --name x", "--name"));
    assert!(text::contains("参数无效", "参数"));
    assert!(text::contains("abc", ""));
    assert!(text::contains("", ""));
    assert!(!text::contains("ab", "abc"));
    assert!(!text::contains("aab", "aba"));
    assert!(text::contains("aaab", "aab"));
}

#[test]
fn blank_texts_hold_white_space_only() {
    assert!(text::is_blank(""));
    assert!(text::is_blank(" \t\r\n\u{2003}"));
    assert!(!text::is_blank(" x "));
    assert!(!text::is_blank("\u{200b}"));
}

#[test]
fn white_space_is_that_of_trim() {
    for code in 0..0x3100u32 {
        if let Some(c) = char::from_u32(code) {
            let s = c.to_string();
            assert_eq!(text::is_blank(&s), s.trim().is_empty(), "{:x}", code);
        }
    }
}

#[test]
fn texts_are_ordered_by_their_characters() {
    assert!(text::comes_before_or_equals("a", "b"));
    assert!(text::comes_before_or_equals("a", "a"));
    assert!(text::comes_before_or_equals("a", "aa"));
    assert!(!text::comes_before_or_equals("aa", "a"));
    assert!(!text::comes_before_or_equals("b", "aa"));
    assert!(text::comes_before_or_equals("", ""));
}

#[test]
fn words_are_joined_with_spaces() {
    let words = vec!["a".to_string(), "".to_string(), "c".to_string()];
    assert_eq!(text::join_with_spaces(&words), "a  c");
    assert_eq!(text::join_with_spaces(&Vec::new()), "");
}

#[test]
fn lists_are_searched_and_copied() {
    let list = vec!["a".to_string(), "b".to_string()];
    assert!(text::list_has(&list, "b"));
    assert!(!text::list_has(&list, "B"));
    assert_eq!(text::copy_texts(&list), list);
    assert!(text::same_text("x", "x") && !text::same_text("x", "y"));
}

#[test]
fn order_of_texts_is_that_of_the_standard_library() {
    let texts = ["", "a", "aa", "b", "d/a", "d/b", "ä", "参数", "A"];
    for a in texts {
        for b in texts {
            assert_eq!(text::comes_before_or_equals(a, b), a <= b);
            let (fa, fb) = (format!("dir/{}", a), format!("dir/{}", b));
            assert_eq!(text::comes_before_or_equals(&fa, &fb), a <= b);
        }
    }
}

#[test]
fn lower_case_does_not_look_across_line_ends() {
    let texts = ["", "Σ", "ΑΣ", "ΣΑ", "Α\u{301}Σ", "\u{ad}Σ", "İ", "--NAME", "ǅ", "Σ\nΣ"];
    for a in texts {
        for b in texts {
            let whole = format!("{}\n{}", a, b).to_lowercase();
            assert_eq!(whole, format!("{}\n{}", a.to_lowercase(), b.to_lowercase()));
        }
    }
}
