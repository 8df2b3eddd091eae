use scrcpy_core::tokenizer::{split_args, split_whitespace_tokens};

#[test]
fn splits_plain_words() {
    let r = split_args("shell ls -l").unwrap();
    assert_eq!(r, vec!["shell".to_string(), "ls".to_string(), "-l".to_string()]);
}

#[test]
fn quotes_group_spaces() {
    let r = split_args("push \"my file.apk\" /sdcard").unwrap();
    assert_eq!(r, vec!["push".to_string(), "my file.apk".to_string(), "/sdcard".to_string()]);
}

#[test]
fn adjacent_quotes_join_into_one_token() {
    let r = split_args("a\"b c\"d").unwrap();
    assert_eq!(r, vec!["ab cd".to_string()]);
}

#[test]
fn unclosed_quote_is_an_error() {
    let e = split_args("shell \"echo hi").unwrap_err();
    assert_eq!(e, "Unclosed quotes");
}

#[test]
fn empty_and_blank_input_yield_no_tokens() {
    assert_eq!(split_args("").unwrap(), Vec::<String>::new());
    assert_eq!(split_args("   \t ").unwrap(), Vec::<String>::new());
}

#[test]
fn repeated_whitespace_collapses() {
    let r = split_whitespace_tokens("  a   b\t\tc ");
    assert_eq!(r, vec!["a".to_string(), "b".to_string(), "c".to_string()]);
}

#[test]
fn empty_quotes_leave_no_token() {
    let r = split_args("a \"\" b").unwrap();
    assert_eq!(r, vec!["a".to_string(), "b".to_string()]);
}
