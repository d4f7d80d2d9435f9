use xivpf::sanitize::sanitize;
use xivpf::text::{contains_sub, str_eq, trim_end, usize_to_string};
use xivpf::timeparse::parse_time_remaining;

#[test]
fn sanitize_doubles_backslashes() {
    assert_eq!(sanitize("\\".to_string()), "\\\\");
    assert_eq!(sanitize("a\\b".to_string()), "a\\\\b");
}

#[test]
fn sanitize_pads_mentions_and_hashes_with_zero_width_space() {
    assert_eq!(sanitize("#".to_string()), "#\u{200B}");
    assert_eq!(sanitize("@here".to_string()), "@\u{200B}here");
    assert_eq!(sanitize("name#1234".to_string()), "name#\u{200B}1234");
}

#[test]
fn sanitize_escapes_markdown_control_characters() {
    assert_eq!(sanitize("a|b".to_string()), "a\\|b");
    assert_eq!(sanitize("x*y_z".to_string()), "x\\*y\\_z");
    assert_eq!(sanitize("~[`>".to_string()), "\\~\\[\\`\\>");
}

#[test]
fn sanitize_escapes_backslash_first_and_never_twice() {
    // A backslash followed by a pipe: each is escaped once, independently.
    assert_eq!(sanitize("\\|".to_string()), "\\\\\\|");
}

#[test]
fn sanitize_leaves_clean_text_alone_and_is_idempotent_there() {
    let once = sanitize("hello world".to_string());
    assert_eq!(once, "hello world");
    assert_eq!(sanitize(once.clone()), once);
}

#[test]
fn parse_time_remaining_reads_the_leading_digit_run() {
    assert_eq!(parse_time_remaining("5 minutes ago"), 5);
    assert_eq!(parse_time_remaining("12 minutes ago"), 12);
}

#[test]
fn parse_time_remaining_treats_hours_without_digits_as_sixty() {
    assert_eq!(parse_time_remaining("an hour ago"), 60);
}

#[test]
fn parse_time_remaining_treats_seconds_as_zero() {
    assert_eq!(parse_time_remaining("30 seconds ago"), 0);
}

#[test]
fn parse_time_remaining_defaults_to_zero() {
    assert_eq!(parse_time_remaining(""), 0);
    assert_eq!(parse_time_remaining("just now"), 0);
    // A value beyond the representable range is unparseable.
    assert_eq!(parse_time_remaining("99999999999 minutes ago"), 0);
}

#[test]
fn str_helpers_behave() {
    assert!(str_eq("abc", "abc"));
    assert!(!str_eq("abc", "abd"));
    assert!(!str_eq("abc", "ab"));
    assert!(contains_sub("class slot filled", "filled"));
    assert!(!contains_sub("class slot", "filled"));
    assert!(contains_sub("anything", ""));
    assert_eq!(trim_end("ab  \t\n"), "ab");
    assert_eq!(trim_end("ab"), "ab");
    assert_eq!(usize_to_string(0), "0");
    assert_eq!(usize_to_string(42), "42");
    assert_eq!(usize_to_string(100), "100");
}
