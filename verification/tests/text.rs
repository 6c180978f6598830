use zarr_cli::text::{
    chars_of, end_without, eq_ignore_ascii_case, push_decimal, same_text, starts_with, string_of,
    to_ascii_upper, trim, trim_bounds,
};

#[test]
fn white_space_is_the_unicode_property() {
    let listed = |n: u32| {
        (0x09..=0x0d).contains(&n)
            || (0x2000..=0x200a).contains(&n)
            || matches!(
                n,
                0x20 | 0x85 | 0xa0 | 0x1680 | 0x2028 | 0x2029 | 0x202f | 0x205f | 0x3000
            )
    };
    for n in 0..=0x10ffffu32 {
        if let Some(c) = char::from_u32(n) {
            assert_eq!(trim(&c.to_string()).is_empty(), listed(n), "{n:#x}");
        }
    }
}

#[test]
fn trims_both_ends() {
    assert_eq!(trim(" \u{a0}a b\u{2003}\n"), "a b");
    assert_eq!(trim("\u{200b}"), "\u{200b}");
    assert_eq!(trim(""), "");
    assert_eq!(trim(&trim("  x ")), trim("  x "));
    assert_eq!(trim_bounds(&chars_of("  é ")), (2, 3));
}

#[test]
fn characters_go_in_and_out() {
    let v = chars_of("aé·");
    assert_eq!(v, vec!['a', 'é', '·']);
    assert_eq!(string_of(&v, 1, 3), "é·");
    assert_eq!(string_of(&v, 2, 2), "");
    assert_eq!(end_without(&chars_of("a;;"), 0, 3, ';'), 1);
}

#[test]
fn numerals_are_decimal() {
    for n in [0, 7, 10, 99, 100, 65535, u64::MAX] {
        let mut s = "n=".to_string();
        push_decimal(&mut s, n);
        assert_eq!(s, format!("n={n}"));
    }
}

#[test]
fn numerals_are_digits_and_differ() {
    let mut seen: Vec<String> = Vec::new();
    for n in [0, 1, 9, 10, 11, 19, 100, 101, 1000, u64::MAX] {
        let mut s = String::new();
        push_decimal(&mut s, n);
        assert!(!s.is_empty() && s.chars().all(|c| c.is_ascii_digit()));
        assert!(!seen.contains(&s));
        seen.push(s);
    }
}

#[test]
fn texts_compare_by_character() {
    assert!(same_text("é", "é"));
    assert!(!same_text("a", "A"));
    assert!(!same_text("a", "ab"));
    assert!(starts_with("\\dt", "\\d"));
    assert!(starts_with("x", ""));
    assert!(!starts_with("DES", "DESC"));
    assert!(!starts_with("desc ", "DESC"));
}

#[test]
fn only_ascii_case_is_ignored() {
    assert!(eq_ignore_ascii_case("QuIt", "quit"));
    assert!(!eq_ignore_ascii_case("quit ", "quit"));
    assert!(!eq_ignore_ascii_case("É", "é"));
    assert!(!eq_ignore_ascii_case("[", "{"));
    assert_eq!(to_ascii_upper('z'), 'Z');
    assert_eq!(to_ascii_upper('é'), 'é');
}
