use jlfine::text::{
    chars_of, contains, copy_list, decimal_of, divide, find_in, index_of, is_whitespace, join_texts,
    joined, lower_ascii, parse_number, remainder, same_ignoring_case, same_text, signed_decimal_of,
    split_on, split_once, starts_with, strip_prefix, text_of, two_digits_of, upper_ascii,
};

fn list(v: &[&str]) -> Vec<String> {
    v.iter().map(|s| s.to_string()).collect()
}

#[test]
fn whitespace_agrees_with_the_standard_library() {
    for n in 0..=0x10ffffu32 {
        if let Some(c) = char::from_u32(n) {
            assert_eq!(is_whitespace(c), c.is_whitespace(), "{:x}", n);
        }
    }
}

#[test]
fn numbers_are_written_as_usual() {
    for n in [0u64, 1, 9, 10, 99, 100, 12345, u64::MAX] {
        assert_eq!(decimal_of(n), n.to_string());
    }
    for n in [0i64, -1, 9, 10, -10, i64::MIN, i64::MAX] {
        assert_eq!(signed_decimal_of(n), n.to_string());
        assert_eq!(two_digits_of(n), format!("{:02}", n));
    }
    assert_eq!(two_digits_of(-5), "-5");
}

#[test]
fn numbers_are_read_as_usual() {
    for s in ["", "+", "-", "-1", "0", "007", "+5", "12a", " 1", "4294967295", "4294967296", "99999999999999999999"]
    {
        assert_eq!(parse_number(s, u32::MAX), s.parse::<u32>().ok(), "{:?}", s);
    }
    for s in ["2147483647", "2147483648", "+2147483647", "x"] {
        assert_eq!(parse_number(s, 0x7fff_ffff).map(|n| n as i32), s.parse::<i32>().ok());
    }
}

#[test]
fn division_rounds_towards_zero() {
    for a in [0i64, 1, -1, 59, -59, 60, -60, 3599, -3601, i64::MIN, i64::MAX] {
        for b in [2u32, 60, 3600, 10_000_000] {
            assert_eq!(divide(a, b), a / b as i64);
            assert_eq!(remainder(a, b), a % b as i64);
        }
    }
}

#[test]
fn texts_are_cut_as_usual() {
    for s in ["", "a", ":", "a:b", "a:b:c", ":a:", "é:ü"] {
        let pieces = split_on(s, ':');
        let expected: Vec<String> = s.split(':').map(|x| x.to_string()).collect();
        assert_eq!(pieces, expected);
        let once = s.split_once(':').map(|(a, b)| (a.to_string(), b.to_string()));
        assert_eq!(split_once(s, ':'), once);
        assert_eq!(join_texts(&pieces, ":"), s);
        assert_eq!(strip_prefix(s, "a:"), s.strip_prefix("a:").map(|x| x.to_string()));
        assert_eq!(starts_with(s, "é"), s.starts_with("é"));
        assert_eq!(contains(s, "b:"), s.contains("b:"));
        assert!(contains(s, "") && starts_with(s, ""));
        assert_eq!(copy_list(&pieces), pieces);
    }
    assert_eq!(join_texts(&list(&[]), ", "), "");
    assert_eq!(join_texts(&list(&["x", "", "y"]), ", "), "x, , y");
    assert_eq!(joined("a", "b"), "ab");
}

#[test]
fn texts_are_searched_from_a_place() {
    let x = chars_of("abcabc");
    let p = chars_of("bc");
    assert_eq!(find_in(&x, 0, &p), Some(1));
    assert_eq!(find_in(&x, 2, &p), Some(4));
    assert_eq!(find_in(&x, 5, &p), None);
    assert_eq!(index_of(&x, 'c'), 2);
    assert_eq!(index_of(&x, 'z'), 6);
    assert_eq!(text_of(&x, 1, 3), "bc");
}

#[test]
fn case_is_changed_in_ascii_only() {
    for s in ["", "aZ09_é", "ÄöÜ", "HeLLo"] {
        assert_eq!(lower_ascii(s), s.to_ascii_lowercase());
        assert_eq!(upper_ascii(s), s.to_ascii_uppercase());
    }
    assert!(same_ignoring_case("ImDb", "iMdB") && !same_ignoring_case("É", "é"));
    assert!(same_text("é", "é") && !same_text("é", "e") && !same_text("a", "ab"));
}
