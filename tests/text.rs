use tmux_debug_mcp::parse::{contains_str, parse_u32, split_fields, split_lines, starts_with_str};
use tmux_debug_mcp::text::{push_decimal, push_padded, str_eq};

#[test]
fn decimal_rendering() {
    let mut s = String::from("n=");
    push_decimal(&mut s, 0);
    push_decimal(&mut s, 1234567890);
    assert_eq!(s, "n=01234567890");
    let mut p = String::new();
    push_padded(&mut p, 7, 4);
    push_padded(&mut p, 12345, 2);
    assert_eq!(p, "000712345");
}

#[test]
fn lines_follow_str_lines() {
    for input in ["", "a", "a\n", "a\nb", "a\r\nb\r\n", "\n", "a\n\nb", "x\r", "\r\n\r\n"] {
        let expected: Vec<String> = input.lines().map(|l| l.to_string()).collect();
        assert_eq!(split_lines(input), expected, "input {:?}", input);
    }
}

#[test]
fn fields_follow_str_split() {
    for input in ["", "a|b|c", "|", "a||b|", "name|12|0"] {
        let expected: Vec<String> = input.split('|').map(|l| l.to_string()).collect();
        assert_eq!(split_fields(input, '|'), expected);
    }
}

#[test]
fn u32_parsing_follows_std() {
    for input in ["0", "12345", "+7", "-1", "", "+", "4294967295", "4294967296", "00012", "1a", " 1"] {
        assert_eq!(parse_u32(input), input.parse::<u32>().ok(), "input {:?}", input);
    }
}

#[test]
fn substring_and_prefix() {
    assert!(contains_str("error: session not found", "session not found"));
    assert!(!contains_str("session", "session not found"));
    assert!(contains_str("abc", ""));
    assert!(starts_with_str("debug-1:debug-2", "debug-1:"));
    assert!(!starts_with_str("debug", "debug-1:"));
    assert!(str_eq("é", "é"));
    assert!(!str_eq("a", "b"));
}
