use emogen::error::EmogenError;
use emogen::text::{decode_moji, replace, split_lines, strip_newlines, to_chars};

#[test]
fn characters_of_a_string() {
    assert_eq!(to_chars(""), Vec::<char>::new());
    assert_eq!(to_chars("a\u{3042}\u{1f47e}"), vec!['a', '\u{3042}', '\u{1f47e}']);
}

#[test]
fn replace_agrees_with_the_standard_library() {
    let texts = ["", "a", "aaa", "aaaa", "abcabc", "ab", "{{ .Moji }} and {{ .Moji }}", "%0a%0A", "\u{3042}a\u{3042}"];
    let patterns = ["", "a", "aa", "abc", "b", "{{ .Moji }}", "%0a", "\u{3042}", "zz"];
    let fills = ["", "-", "aa", "\n", "{{ .Moji }}"];
    for text in texts {
        for pattern in patterns {
            for fill in fills {
                assert_eq!(replace(text, pattern, fill), text.replace(pattern, fill));
            }
        }
    }
}

#[test]
fn replace_takes_matches_from_the_left_without_overlap() {
    assert_eq!(replace("aaa", "aa", "b"), "ba");
    assert_eq!(replace("aaaa", "aa", "b"), "bb");
    assert_eq!(replace("abab", "ab", "ba"), "baba");
    assert_eq!(replace("abc", "", "-"), "-a-b-c-");
    assert_eq!(replace("", "", "-"), "-");
    assert_eq!(replace("abc", "abcd", "x"), "abc");
}

#[test]
fn decoding_turns_an_escaped_newline_into_a_newline() {
    let decoded = decode_moji("A%0AB").unwrap();
    assert_eq!(decoded, "A\nB");
    assert_eq!(split_lines(&decoded), vec!["A".to_string(), "B".to_string()]);
    assert_eq!(decode_moji("A%0aB").unwrap(), "A\nB");
}

#[test]
fn decoding_reads_percent_escapes_as_utf8() {
    assert_eq!(decode_moji("%F0%9F%91%BE%20Exterminate%21").unwrap(), "\u{1f47e} Exterminate!");
    assert_eq!(decode_moji("%e3%81%82").unwrap(), "\u{3042}");
    assert_eq!(decode_moji("%41%42c").unwrap(), "ABc");
    assert_eq!(decode_moji("\u{3042}%20\u{3042}").unwrap(), "\u{3042} \u{3042}");
}

#[test]
fn decoding_leaves_what_is_no_escape() {
    assert_eq!(decode_moji("").unwrap(), "");
    assert_eq!(decode_moji("plain").unwrap(), "plain");
    assert_eq!(decode_moji("a+b").unwrap(), "a+b");
    assert_eq!(decode_moji("100%").unwrap(), "100%");
    assert_eq!(decode_moji("%4").unwrap(), "%4");
    assert_eq!(decode_moji("%zz").unwrap(), "%zz");
    assert_eq!(decode_moji("%4g").unwrap(), "%4g");
    assert_eq!(decode_moji("%%41").unwrap(), "%A");
    assert_eq!(decode_moji("%4%41").unwrap(), "%4A");
    assert_eq!(decode_moji("%%").unwrap(), "%%");
}

#[test]
fn decoding_fails_where_the_bytes_are_not_utf8() {
    assert_eq!(decode_moji("%FF"), Err(EmogenError::Decode));
    assert_eq!(decode_moji("abc%80"), Err(EmogenError::Decode));
    assert_eq!(decode_moji("%F0%9F%91"), Err(EmogenError::Decode));
    assert_eq!(decode_moji("%C3%28"), Err(EmogenError::Decode));
}

#[test]
fn a_text_without_newline_is_one_line() {
    assert_eq!(split_lines(""), vec!["".to_string()]);
    assert_eq!(split_lines("abc"), vec!["abc".to_string()]);
}

#[test]
fn lines_are_the_pieces_between_newlines() {
    assert_eq!(split_lines("a\nb"), vec!["a".to_string(), "b".to_string()]);
    assert_eq!(split_lines("a\n"), vec!["a".to_string(), "".to_string()]);
    assert_eq!(split_lines("\na"), vec!["".to_string(), "a".to_string()]);
    assert_eq!(split_lines("\n\n"), vec!["".to_string(), "".to_string(), "".to_string()]);
    assert_eq!(split_lines("\u{3042}\n\u{1f47e}\r\nx"), vec!["\u{3042}".to_string(), "\u{1f47e}\r".to_string(), "x".to_string()]);
}

#[test]
fn lines_agree_with_the_standard_library_and_join_back() {
    for text in ["", "\n", "a", "a\nb\nc", "\n\na\n\n", "one line", "x\ny\n"] {
        let lines = split_lines(text);
        let expected: Vec<String> = text.split('\n').map(|l| l.to_string()).collect();
        assert_eq!(lines, expected);
        assert_eq!(lines.join("\n"), text);
        assert_eq!(lines.len(), text.matches('\n').count() + 1);
        for line in &lines {
            assert!(!line.contains('\n'));
        }
    }
}

#[test]
fn newlines_are_stripped() {
    assert_eq!(strip_newlines(""), "");
    assert_eq!(strip_newlines("abc"), "abc");
    assert_eq!(strip_newlines("a\nb\n\nc\n"), "abc");
    assert_eq!(strip_newlines("\n"), "");
    assert_eq!(strip_newlines("a\r\nb"), "a\rb");
}
