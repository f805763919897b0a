use voice_assistant::text::{after_last_str, chars_of, is_whitespace_char, strip_trailing_str, trim_str};

#[test]
fn trim_removes_unicode_white_space_at_both_ends() {
    assert_eq!(trim_str("  hello world \n\t"), "hello world");
    assert_eq!(trim_str("\u{3000}你好\u{a0}"), "你好");
    assert_eq!(trim_str("   "), "");
    assert_eq!(trim_str(""), "");
    assert_eq!(trim_str("a b"), "a b");
}

#[test]
fn trim_matches_std() {
    for s in ["", " x ", "\u{2028}x\u{85}", "x\u{200b}", "\t\r\n", "a\u{1680}"] {
        assert_eq!(trim_str(s), s.trim());
    }
}

#[test]
fn trim_is_idempotent() {
    let once = trim_str("  \u{2003}text\u{205f} ");
    assert_eq!(trim_str(&once), once);
}

#[test]
fn whitespace_agrees_with_char_is_whitespace() {
    for u in 0u32..0x3100 {
        if let Some(c) = char::from_u32(u) {
            assert_eq!(is_whitespace_char(c), c.is_whitespace(), "code point {:x}", u);
        }
    }
}

#[test]
fn trailing_slashes_are_stripped() {
    assert_eq!(strip_trailing_str("http://127.0.0.1:1234/v1///", '/'), "http://127.0.0.1:1234/v1");
    assert_eq!(strip_trailing_str("http://x/v1", '/'), "http://x/v1");
    assert_eq!(strip_trailing_str("///", '/'), "");
    assert_eq!(strip_trailing_str("a/b/", '/'), "a/b");
}

#[test]
fn after_last_takes_the_text_after_the_last_marker() {
    assert_eq!(after_last_str("a Thinking Process: b Thinking Process: c", "Thinking Process:"), " c");
    assert_eq!(after_last_str("no marker here", "Thinking Process:"), "no marker here");
    assert_eq!(after_last_str("Thinking Process:", "Thinking Process:"), "");
    assert_eq!(after_last_str("", "Thinking Process:"), "");
}

#[test]
fn chars_of_keeps_every_character() {
    assert_eq!(chars_of("aé你"), vec!['a', 'é', '你']);
}

#[test]
fn after_last_matches_split_last_for_the_marker() {
    let marker = "Thinking Process:";
    for s in [
        "",
        "plain answer",
        "Thinking Process:",
        "Thinking Process:Thinking Process:x",
        "a Thinking Process b Thinking Process: c",
        "Thinking Process: 让我想想 Thinking Process: 答案是四",
        "Thinking Processs: x",
    ] {
        assert_eq!(after_last_str(s, marker), s.split(marker).last().unwrap_or(s));
    }
}

#[test]
fn strip_trailing_matches_trim_end_matches() {
    for s in ["", "/", "a//", "http://h/v1/", "/a/b"] {
        assert_eq!(strip_trailing_str(s, '/'), s.trim_end_matches('/'));
    }
}
