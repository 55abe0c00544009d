use greenboot::text::{
    char_is_whitespace, chars_of, contains, line_end, nth_field, same_text,
};

fn chars(s: &str) -> Vec<char> {
    s.chars().collect()
}

#[test]
fn whitespace_is_the_unicode_property() {
    for c in ['\t', '\n', '\u{b}', '\u{c}', '\r', ' ', '\u{85}', '\u{a0}', '\u{1680}', '\u{2000}',
        '\u{200a}', '\u{2028}', '\u{2029}', '\u{202f}', '\u{205f}', '\u{3000}']
    {
        assert!(char_is_whitespace(c), "{:?}", c);
    }
    for c in ['a', '0', '\u{8}', '\u{e}', '\u{1f}', '!', '\u{84}', '\u{86}', '\u{9f}', '\u{a1}',
        '\u{180e}', '\u{1fff}', '\u{200b}', '\u{2027}', '\u{202a}', '\u{2060}', '\u{feff}', '\u{3001}']
    {
        assert!(!char_is_whitespace(c), "{:?}", c);
    }
}

#[test]
fn whitespace_agrees_with_std_on_every_char() {
    let mut n: u32 = 0;
    while n <= 0x10ffff {
        if let Some(c) = char::from_u32(n) {
            assert_eq!(char_is_whitespace(c), c.is_whitespace(), "{n:#x}");
        }
        n += 1;
    }
}

#[test]
fn chars_of_keeps_every_char() {
    assert_eq!(chars_of(""), Vec::<char>::new());
    assert_eq!(chars_of("a\u{e9}\u{1f600}z"), vec!['a', '\u{e9}', '\u{1f600}', 'z']);
}

#[test]
fn same_text_compares_char_by_char() {
    assert!(same_text(&chars("/boot"), &chars("/boot")));
    assert!(same_text(&[], &[]));
    assert!(!same_text(&chars("/boot"), &chars("/boo")));
    assert!(!same_text(&chars("/boot"), &chars("/bood")));
}

#[test]
fn contains_finds_a_run_anywhere() {
    assert!(contains(&chars("rw,relatime"), &chars("rw")));
    assert!(contains(&chars("noatime,rw"), &chars("rw")));
    assert!(contains(&chars("xrwx"), &chars("rw")));
    assert!(contains(&chars("rw"), &chars("rw")));
    assert!(contains(&chars("anything"), &[]));
    assert!(contains(&[], &[]));
    assert!(!contains(&[], &chars("rw")));
    assert!(!contains(&chars("r"), &chars("rw")));
    assert!(!contains(&chars("r,w"), &chars("rw")));
    assert!(!contains(&chars("wr"), &chars("rw")));
    assert!(contains(&chars("aab"), &chars("ab")));
}

#[test]
fn nth_field_splits_at_whitespace() {
    let line = chars("  dev\t/boot  ext4 rw ");
    assert_eq!(nth_field(&line, 0), Some((2, 5)));
    assert_eq!(nth_field(&line, 1), Some((6, 11)));
    assert_eq!(nth_field(&line, 2), Some((13, 17)));
    assert_eq!(nth_field(&line, 3), Some((18, 20)));
    assert_eq!(nth_field(&line, 4), None);
    assert_eq!(nth_field(&[], 0), None);
    assert_eq!(nth_field(&chars("   "), 0), None);
    assert_eq!(nth_field(&chars("x"), 0), Some((0, 1)));
}

#[test]
fn nth_field_agrees_with_split_whitespace() {
    for text in ["a b c", " a  b\tc\n", "", "one", "\u{a0}x\u{2003}y z\u{3000}", "a\rb"] {
        let line = chars(text);
        let expected: Vec<&str> = text.split_whitespace().collect();
        for n in 0..expected.len() + 2 {
            let got = nth_field(&line, n).map(|(a, b)| line[a..b].iter().collect::<String>());
            assert_eq!(got.as_deref(), expected.get(n).copied(), "{text:?} field {n}");
        }
    }
}

#[test]
fn line_end_stops_at_the_line_feed() {
    let text = chars("ab\ncd\n\nef");
    assert_eq!(line_end(&text, 0), 2);
    assert_eq!(line_end(&text, 2), 2);
    assert_eq!(line_end(&text, 3), 5);
    assert_eq!(line_end(&text, 6), 6);
    assert_eq!(line_end(&text, 7), 9);
    assert_eq!(line_end(&text, 9), 9);
}
