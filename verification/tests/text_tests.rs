use dpkg_rs::text::{
    ancestor_path, byte_length, chars_of, clean_text, is_whitespace_char, push_decimal, same_text,
    spells, split_on, string_of, tokenize,
};

#[test]
fn tokenize_splits_on_any_whitespace() {
    let words = tokenize("  Hello,\tworld!\n <:wave:123456>  x ");
    assert_eq!(words, vec!["Hello,", "world!", "<:wave:123456>", "x"]);
}

#[test]
fn tokenize_keeps_case_and_punctuation() {
    let words = tokenize("Don't SHOUT... (please)");
    assert_eq!(words, vec!["Don't", "SHOUT...", "(please)"]);
}

#[test]
fn tokenize_of_blank_text_is_empty() {
    assert!(tokenize("").is_empty());
    assert!(tokenize(" \t\r\n").is_empty());
}

#[test]
fn tokenize_treats_unicode_spaces_as_whitespace() {
    let words = tokenize("one\u{00A0}two\u{3000}three");
    assert_eq!(words, vec!["one", "two", "three"]);
}

#[test]
fn whitespace_is_what_std_takes_for_whitespace() {
    let mut count = 0;
    for code in 0..=0x10FFFFu32 {
        if let Some(c) = char::from_u32(code) {
            assert_eq!(is_whitespace_char(c), c.is_whitespace(), "U+{:04X}", code);
            if is_whitespace_char(c) {
                count += 1;
            }
        }
    }
    assert_eq!(count, 25);
}

#[test]
fn tokenize_agrees_with_split_whitespace() {
    let samples = ["", " ", "a", " a b  c ", "x\ny\tz", "é ü\u{2003}ß", "<a:x:1> word"];
    for sample in samples {
        let expected: Vec<String> = sample.split_whitespace().map(|s| s.to_string()).collect();
        assert_eq!(tokenize(sample), expected);
    }
}

#[test]
fn clean_text_strips_marker_and_whitespace() {
    assert_eq!(clean_text("\u{FEFF}  {\"a\": 1}\n"), "{\"a\": 1}");
    assert_eq!(clean_text("\u{FEFF}\u{FEFF}x"), "x");
    assert_eq!(clean_text("  inner  space  "), "inner  space");
}

#[test]
fn clean_text_of_blank_content_is_empty() {
    assert_eq!(clean_text(""), "");
    assert_eq!(clean_text("\u{FEFF}"), "");
    assert_eq!(clean_text("\u{FEFF} \n\t"), "");
}

#[test]
fn clean_text_keeps_a_marker_that_is_not_leading() {
    assert_eq!(clean_text(" \u{FEFF}x"), "\u{FEFF}x");
}

#[test]
fn clean_text_agrees_with_std() {
    let samples = ["", "\u{FEFF}", " a ", "\u{FEFF} a\u{00A0}", "\ta\u{FEFF} ", "\u{FEFF}\u{FEFF}\n[]"];
    for sample in samples {
        let expected = sample.trim_start_matches('\u{FEFF}').trim().to_string();
        assert_eq!(clean_text(sample), expected);
    }
}

#[test]
fn split_on_keeps_empty_pieces() {
    assert_eq!(split_on("", ' '), vec![""]);
    assert_eq!(split_on("a b", ' '), vec!["a", "b"]);
    assert_eq!(split_on(" a  b ", ' '), vec!["", "a", "", "b", ""]);
}

#[test]
fn split_on_agrees_with_std() {
    let samples = ["", " ", "a", "a b c", "  x", "x  ", "http://a/b http://c"];
    for sample in samples {
        let expected: Vec<String> = sample.split(' ').map(|s| s.to_string()).collect();
        assert_eq!(split_on(sample, ' '), expected);
    }
}

#[test]
fn ancestor_path_removes_segments() {
    let path = "package/messages/c123/channel.json";
    assert_eq!(ancestor_path(path, 0), path);
    assert_eq!(ancestor_path(path, 1), "package/messages/c123");
    assert_eq!(ancestor_path(path, 2), "package/messages");
    assert_eq!(ancestor_path(path, 3), "package");
    assert_eq!(ancestor_path(path, 4), "");
    assert_eq!(ancestor_path(path, 9), "");
}

#[test]
fn ancestor_path_of_a_rooted_path() {
    assert_eq!(ancestor_path("/c1/channel.json", 2), "");
    assert_eq!(ancestor_path("/a/b", 1), "/a");
}

#[test]
fn ancestor_path_agrees_with_split_and_join() {
    let samples = ["a/b/c/d", "messages/c1/channel.json", "x//y/z", "/a/b/c"];
    for sample in samples {
        let segments: Vec<&str> = sample.split('/').collect();
        for levels in 0..segments.len() {
            let expected = segments[..segments.len() - levels].join("/");
            assert_eq!(ancestor_path(sample, levels), expected);
        }
    }
}

#[test]
fn decimal_notation() {
    let cases: [(u64, &str); 6] =
        [(0, "0"), (7, "7"), (10, "10"), (1234, "1234"), (90009, "90009"), (u64::MAX, "18446744073709551615")];
    for (n, expected) in cases {
        let mut out = String::from("n=");
        push_decimal(&mut out, n);
        assert_eq!(out, format!("n={}", expected));
    }
}

#[test]
fn text_comparisons() {
    assert!(same_text("abc", "abc"));
    assert!(!same_text("abc", "abd"));
    assert!(!same_text("abc", "ab"));
    assert!(same_text("", ""));
    let chars = chars_of("héllo");
    assert_eq!(chars.len(), 5);
    assert!(spells(&chars, "héllo"));
    assert!(!spells(&chars, "héll"));
    assert!(!spells(&chars, "héllo!"));
    assert!(!spells(&chars, "hello"));
    assert_eq!(string_of(&chars, 1, 4), "éll");
    assert_eq!(string_of(&chars, 2, 2), "");
}

#[test]
fn byte_length_counts_bytes_not_characters() {
    assert_eq!(byte_length(""), 0);
    assert_eq!(byte_length("hello"), 5);
    assert_eq!(byte_length("héllo"), 6);
    assert_eq!(byte_length("日本"), 6);
}
