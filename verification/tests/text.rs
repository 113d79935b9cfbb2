use replybot::logging::log_line;
use replybot::text::{
    byte_len, decimal_text, first_chars, replace_all, split_pieces, starts_with, strip_prefix,
    trim_suffix,
};

#[test]
fn decimal_numbers_have_no_leading_zeros() {
    assert_eq!(decimal_text(0), "0");
    assert_eq!(decimal_text(7), "7");
    assert_eq!(decimal_text(10), "10");
    assert_eq!(decimal_text(1200300), "1200300");
    assert_eq!(decimal_text(u64::MAX), "18446744073709551615");
}

#[test]
fn decimal_agrees_with_std_and_tells_numbers_apart() {
    let mut seen: Vec<String> = Vec::new();
    for n in [0u64, 1, 9, 10, 11, 99, 100, 101, 110, 1000, 4294967296] {
        let text = decimal_text(n);
        assert_eq!(text, n.to_string());
        assert!(!seen.contains(&text));
        seen.push(text);
    }
}

#[test]
fn lengths_count_bytes() {
    assert_eq!(byte_len(""), 0);
    assert_eq!(byte_len("abc"), 3);
    assert_eq!(byte_len("\u{e9}\u{4e16}\u{1f600}"), 2 + 3 + 4);
}

#[test]
fn first_chars_counts_characters() {
    assert_eq!(first_chars("abcdef", 3), "abc");
    assert_eq!(first_chars("abc", 3), "abc");
    assert_eq!(first_chars("ab", 3), "ab");
    assert_eq!(first_chars("\u{e9}\u{e8}\u{ea}", 2), "\u{e9}\u{e8}");
    assert_eq!(first_chars("abc", 0), "");
}

#[test]
fn prefixes_and_suffixes_come_off() {
    assert!(starts_with("Replybot-Key", "Replybot-"));
    assert!(!starts_with("Reply", "Replybot-"));
    assert!(starts_with("x", ""));
    assert_eq!(strip_prefix("Replybot-Key", "Replybot-"), Some("Key".to_string()));
    assert_eq!(strip_prefix("Shared-Key", "Replybot-"), None);
    assert_eq!(trim_suffix("Replybot-", "-"), "Replybot");
    assert_eq!(trim_suffix("Replybot", "-"), "Replybot");
    assert_eq!(trim_suffix("-", "--"), "-");
}

#[test]
fn replacement_agrees_with_std() {
    for (text, pattern, with) in [
        ("a-b-c", "-", "."),
        ("aaaa", "aa", "b"),
        ("aaaaa", "aa", "b"),
        ("", "x", "y"),
        ("abc", "abcd", "y"),
        ("__a__b__", "__", "."),
        ("\u{e9}x\u{e9}", "\u{e9}", "ee"),
        ("abab", "ab", ""),
    ] {
        assert_eq!(replace_all(text, pattern, with), text.replace(pattern, with));
    }
}

#[test]
fn pieces_rejoin_and_fit() {
    assert!(split_pieces("", 3).is_empty());
    assert_eq!(split_pieces("abc", 3), vec!["abc"]);
    assert_eq!(split_pieces("abcd", 3), vec!["abc", "d"]);
    assert_eq!(split_pieces("abcdef", 3), vec!["abc", "def"]);
    assert_eq!(
        split_pieces("\u{e9}\u{4e16}a", 2),
        vec!["\u{e9}\u{4e16}", "a"]
    );
    let text = "0123456789".repeat(7);
    let pieces = split_pieces(&text, 8);
    assert_eq!(pieces.concat(), text);
    for (i, piece) in pieces.iter().enumerate() {
        let n = piece.chars().count();
        assert!(1 <= n && n <= 8);
        assert!(i + 1 == pieces.len() || n == 8);
    }
}

#[test]
fn log_lines_name_level_and_target() {
    assert_eq!(
        log_line("INFO", "replybot", "connected on shard"),
        "[INFO][replybot] connected on shard"
    );
    assert_eq!(log_line("", "", ""), "[][] ");
}
