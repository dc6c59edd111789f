use dpilot::text::{ends_with, eq_ignore_ascii_case, first_word_of, i64_to_text, is_blank, lines_of, pad_right, starts_with, text_less, trim_end_matches, u64_to_text};

#[test]
fn text_order_matches_string_order() {
    let words = ["", "a", "B", "ab", "é", "z", "zz", "Ä"];
    for a in words.iter() {
        for b in words.iter() {
            assert_eq!(text_less(a, b), a.to_string() < b.to_string(), "{} {}", a, b);
        }
    }
}

#[test]
fn helpers_match_std() {
    assert!(starts_with("https://x", "https://"));
    assert!(!starts_with("http", "https://"));
    assert!(ends_with("a.yml", ".yml"));
    assert!(!ends_with("yml", ".yml"));
    assert_eq!(trim_end_matches("x.yaml.yaml", ".yaml"), "x.yaml.yaml".trim_end_matches(".yaml"));
    assert!(eq_ignore_ascii_case("SeRvIcE", "service"));
    assert!(!eq_ignore_ascii_case("É", "é"));
    assert!(is_blank(" \n\t"));
    assert!(!is_blank(" x "));
    assert_eq!(first_word_of("  hello world"), "hello");
    assert_eq!(pad_right("ab", 5), format!("{:<5}", "ab"));
    assert_eq!(pad_right("日本", 4), format!("{:<4}", "日本"));
    assert_eq!(u64_to_text(u64::MAX), u64::MAX.to_string());
    assert_eq!(i64_to_text(-42), "-42");
    let s = "a\r\nb\n\r\n";
    let want: Vec<String> = s.lines().map(|l| l.to_string()).collect();
    assert_eq!(lines_of(s), want);
}
