use nsay::text::{
    contains_str, eq_ignore_case, exit_code_text, parse_decimal, split_lines, split_once_chars,
    split_words, trim_chars, u64_to_text,
};

fn chars(s: &str) -> Vec<char> {
    s.chars().collect()
}

fn text(v: &[char]) -> String {
    v.iter().collect()
}

#[test]
fn decimal_rendering() {
    assert_eq!(u64_to_text(0), "0");
    assert_eq!(u64_to_text(1001), "1001");
    assert_eq!(u64_to_text(u64::MAX), "18446744073709551615");
}

#[test]
fn decimal_parsing_follows_str_parse() {
    assert_eq!(parse_decimal(&chars("42"), 255), Some(42));
    assert_eq!(parse_decimal(&chars("+42"), 255), Some(42));
    assert_eq!(parse_decimal(&chars("256"), 255), None);
    assert_eq!(parse_decimal(&chars(""), 255), None);
    assert_eq!(parse_decimal(&chars("+"), 255), None);
    assert_eq!(parse_decimal(&chars("-1"), 255), None);
    assert_eq!(parse_decimal(&chars(" 1"), 255), None);
    assert_eq!(parse_decimal(&chars("007"), 255), Some(7));
    assert_eq!(parse_decimal(&chars("18446744073709551615"), u64::MAX), Some(u64::MAX));
    assert_eq!(parse_decimal(&chars("18446744073709551616"), u64::MAX), None);
}

#[test]
fn trimming_and_words() {
    assert_eq!(text(&trim_chars(&chars("  a b \t\n"))), "a b");
    assert_eq!(text(&trim_chars(&chars("\u{3000}x\u{a0}"))), "x");
    let w: Vec<String> = split_words(&chars(" stage=a\tpct=4  ")).iter().map(|v| text(v)).collect();
    assert_eq!(w, vec!["stage=a".to_string(), "pct=4".to_string()]);
    assert!(split_words(&chars("   ")).is_empty());
}

#[test]
fn lines_and_splits() {
    let l: Vec<String> = split_lines(&chars("a=1\nb=2\r\nc")).iter().map(|v| text(v)).collect();
    assert_eq!(l, vec!["a=1".to_string(), "b=2".to_string(), "c".to_string()]);
    let (k, v) = split_once_chars(&chars("r_frame_rate=30/1"), '=').unwrap();
    assert_eq!((text(&k), text(&v)), ("r_frame_rate".to_string(), "30/1".to_string()));
    assert!(split_once_chars(&chars("novalue"), '=').is_none());
}

#[test]
fn substring_and_case() {
    assert!(contains_str("x h264_nvenc y", " h264_nvenc "));
    assert!(!contains_str("h264_nvenc", " h264_nvenc "));
    assert!(eq_ignore_case("MP4", "mp4"));
    assert!(!eq_ignore_case("mp4", "mp3"));
}

#[test]
fn exit_codes_as_debug_prints_them() {
    assert_eq!(exit_code_text(Some(0)), format!("{:?}", Some(0)));
    assert_eq!(exit_code_text(Some(-9)), format!("{:?}", Some(-9)));
    assert_eq!(exit_code_text(Some(i32::MIN)), format!("{:?}", Some(i32::MIN)));
    assert_eq!(exit_code_text(None), format!("{:?}", None::<i32>));
}
