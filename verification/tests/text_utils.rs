use mqtt_agent::text::str_eq;
use mqtt_agent::text::strip_prefix_exec;
use mqtt_agent::text::take_line_exec;

#[test]
fn string_equality() {
    assert!(str_eq("", ""));
    assert!(str_eq("abc", "abc"));
    assert!(!str_eq("abc", "abd"));
    assert!(!str_eq("abc", "ab"));
}

#[test]
fn line_splitting() {
    let (line, rest) = take_line_exec("ab\ncd\n").expect("text has a newline");
    assert_eq!(line, "ab");
    assert_eq!(rest, "cd\n");
    let (line, rest) = take_line_exec("\nx").expect("text has a newline");
    assert_eq!(line, "");
    assert_eq!(rest, "x");
    assert!(take_line_exec("no newline").is_none());
    assert!(take_line_exec("").is_none());
}

#[test]
fn prefix_stripping() {
    assert_eq!(strip_prefix_exec("  devid: dev1", "  devid: ").as_deref(), Some("dev1"));
    assert_eq!(strip_prefix_exec("abc", "").as_deref(), Some("abc"));
    assert!(strip_prefix_exec("ab", "abc").is_none());
    assert!(strip_prefix_exec("xbc", "ab").is_none());
}
