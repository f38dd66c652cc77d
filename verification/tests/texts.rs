use server_naive::text::{
    concat3, eq_ignore_case, find_first, find_last, parse_unsigned, push_number, split_at_each, trim,
};

fn chars(text: &str) -> Vec<char> {
    text.chars().collect()
}

#[test]
fn numbers_are_read_and_written() {
    assert_eq!(parse_unsigned(&chars("65535"), 65535), Some(65535));
    assert_eq!(parse_unsigned(&chars("+7"), 65535), Some(7));
    assert_eq!(parse_unsigned(&chars("65536"), 65535), None);
    assert_eq!(parse_unsigned(&chars("18446744073709551615"), u64::MAX), Some(u64::MAX));
    assert_eq!(parse_unsigned(&chars("18446744073709551616"), u64::MAX), None);
    for bad in ["", "+", "-1", "1 ", "0x1"] {
        assert_eq!(parse_unsigned(&chars(bad), 100), None, "{bad}");
    }
    let mut out: Vec<char> = Vec::new();
    push_number(&mut out, 2026, 10);
    push_number(&mut out, 255, 16);
    push_number(&mut out, 0, 10);
    assert_eq!(out.iter().collect::<String>(), "2026ff0");
}

#[test]
fn texts_are_cut_and_joined() {
    assert_eq!(split_at_each(&chars("a:b::c"), ':'), vec![
        chars("a"),
        chars("b"),
        chars(""),
        chars("c")
    ]);
    assert_eq!(trim(&chars(" \t\u{a0}x y\u{3000}\n")), chars("x y"));
    assert_eq!(trim(&chars("  ")), chars(""));
    assert_eq!(concat3("a", "", "b"), "ab");
    assert_eq!(find_first(&chars("a:b:c"), ':'), Some(1));
    assert_eq!(find_last(&chars("a:b:c"), ':'), Some(3));
    assert_eq!(find_last(&chars("abc"), ':'), None);
}

#[test]
fn case_counts_for_ascii_letters_only() {
    assert!(eq_ignore_case("aUtO", "AuTo"));
    assert!(!eq_ignore_case("\u{e4}", "\u{c4}"));
    assert!(!eq_ignore_case("auto", "autos"));
}
