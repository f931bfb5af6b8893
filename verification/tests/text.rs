use m3u8downloader::text::{
    blank, chars_of, ends_with, lines, position_from, replace, starts_with, string_of, text_after,
    text_before, white_space,
};

#[test]
fn white_space_is_what_std_says() {
    for code in 0..=0x10ffffu32 {
        if let Some(c) = char::from_u32(code) {
            assert_eq!(white_space(c), c.is_whitespace(), "{code:x}");
        }
    }
}

#[test]
fn blank_texts() {
    for s in ["", " ", "\t\r\n", "\u{3000}\u{a0}", " a ", "#", "\u{200b}"] {
        assert_eq!(blank(&chars_of(s)), s.trim().is_empty(), "{s:?}");
    }
}

#[test]
fn characters_and_back() {
    for s in ["", "abc", "äöü", "视频🎬"] {
        assert_eq!(chars_of(s), s.chars().collect::<Vec<char>>());
        assert_eq!(string_of(&chars_of(s)), s);
    }
}

#[test]
fn lines_are_what_std_says() {
    for s in [
        "", "a", "a\n", "a\nb", "a\r\nb\r\n", "\n", "\n\n", "\r\n", "a\r", "a\r\r\nb", "a\rb\nc",
        "\r", "x\n\r", "视\n频",
    ] {
        let chars = chars_of(s);
        let got: Vec<String> = lines(&chars).into_iter().map(string_of).collect();
        let expected: Vec<&str> = s.lines().collect();
        assert_eq!(got, expected, "{s:?}");
    }
}

#[test]
fn searching() {
    let s = chars_of("abcabc");
    assert_eq!(position_from(&s, &chars_of("ca"), 0), Some(2));
    assert_eq!(position_from(&s, &chars_of("bc"), 2), Some(4));
    assert_eq!(position_from(&s, &chars_of("bd"), 0), None);
    assert_eq!(position_from(&s, &chars_of(""), 6), Some(6));
    assert_eq!(position_from(&s, &chars_of(""), 7), None);
    assert_eq!(position_from(&s, &chars_of("abcabcd"), 0), None);
}

#[test]
fn starts_and_ends() {
    let s = chars_of("seg.m3u8");
    assert!(starts_with(&s, &chars_of("seg")));
    assert!(starts_with(&s, &chars_of("")));
    assert!(!starts_with(&s, &chars_of("eg")));
    assert!(ends_with(&s, &chars_of(".m3u8")));
    assert!(!ends_with(&s, &chars_of(".m3u")));
    assert!(!ends_with(&chars_of("m3u8"), &chars_of(".m3u8")));
}

#[test]
fn before_and_after() {
    let s = chars_of("a=b=c");
    let eq = chars_of("=");
    assert_eq!(string_of(text_before(&s, &eq)), "a");
    assert_eq!(text_after(&s, &eq).map(string_of), Some("b=c".to_string()));
    assert_eq!(string_of(text_before(&s, &chars_of("x"))), "a=b=c");
    assert!(text_after(&s, &chars_of("x")).is_none());
}

#[test]
fn replacing_is_what_std_says() {
    for s in ["", "a", "aaa", "abcabc", "视频视", "aXbX"] {
        for from in ["", "a", "aa", "bc", "视", "X", "zz"] {
            for to in ["", "a", "-", "xyz"] {
                assert_eq!(
                    replace(&chars_of(s), &chars_of(from), &chars_of(to)),
                    s.replace(from, to),
                    "{s:?} {from:?} {to:?}"
                );
            }
        }
    }
}
