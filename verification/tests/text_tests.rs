use scrcpy_core::text::{
    contains_char, contains_str, ends_with_str, lines_of, replace_char, split_char, str_eq,
    trim_str, u32_to_string, u64_to_string, vec_contains_str,
};

#[test]
fn decimal_rendering_is_exact() {
    assert_eq!(u32_to_string(0), "0");
    assert_eq!(u32_to_string(7), "7");
    assert_eq!(u32_to_string(1280), "1280");
    assert_eq!(u32_to_string(u32::MAX), "4294967295");
    assert_eq!(u64_to_string(u64::MAX), "18446744073709551615");
}

#[test]
fn searching_characters_and_substrings() {
    assert!(contains_char("192.168.1.5:5555", ':'));
    assert!(!contains_char("emulator-5554", ':'));
    assert!(contains_str("scrcpy-win64-v2.7.zip", "win64"));
    assert!(!contains_str("scrcpy-win64-v2.7.zip", "linux"));
    assert!(contains_str("abc", ""));
    assert!(ends_with_str("scrcpy-win64-v2.7.zip", ".zip"));
    assert!(!ends_with_str("scrcpy-win64-v2.7.zip.sha256", ".zip"));
    assert!(ends_with_str("x", ""));
    assert!(!ends_with_str("", "x"));
}

#[test]
fn replacement_and_trimming() {
    assert_eq!(replace_char("192.168.1.5:5555", ':', '-'), "192.168.1.5-5555");
    assert_eq!(replace_char("abc", ':', '-'), "abc");
    assert_eq!(trim_str("  hello \t"), "hello");
    assert_eq!(trim_str("\r\n"), "");
    assert_eq!(trim_str("x"), "x");
}

#[test]
fn splitting_and_lines() {
    assert_eq!(split_char("a\tb\t\tc", '\t'), vec!["a".to_string(), "b".to_string(), "".to_string(), "c".to_string()]);
    assert_eq!(split_char("nosep", '\t'), vec!["nosep".to_string()]);
    assert_eq!(lines_of("a\nb\r\nc"), vec!["a".to_string(), "b".to_string(), "c".to_string()]);
    assert_eq!(lines_of("a\n"), vec!["a".to_string()]);
    assert_eq!(lines_of(""), Vec::<String>::new());
}

#[test]
fn string_comparison_helpers() {
    assert!(str_eq("abc", "abc"));
    assert!(!str_eq("abc", "abd"));
    assert!(!str_eq("abc", "ab"));
    let v = vec!["-s".to_string(), "dev".to_string()];
    assert!(vec_contains_str(&v, "-s"));
    assert!(!vec_contains_str(&v, "--serial"));
}
