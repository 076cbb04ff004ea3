use cli_utils::text::{
    chars_of, decimal_text, followed_by, is_white_space, same_text, skip_chars, split_terminator,
    starts_with, trim,
};

#[test]
fn white_space_is_that_of_char() {
    for n in 0..=0x10ffffu32 {
        if let Some(c) = char::from_u32(n) {
            assert_eq!(is_white_space(c), c.is_whitespace(), "{:x}", n);
        }
    }
}

#[test]
fn trim_takes_what_str_trim_takes() {
    let samples = vec![
        "", " ", "a", " a", "a ", "\t a b \n", "\u{a0}x\u{3000}", "\u{200b}x", "\u{2003}\u{e9} \r\n",
        "\u{b}\u{c}y\u{85}",
    ];
    for sample in samples {
        assert_eq!(trim(sample), sample.trim());
    }
}

#[test]
fn trimming_twice_is_trimming_once() {
    assert_eq!(trim("  a b  "), "a b");
    assert_eq!(trim(trim("  a b  ")), "a b");
}

#[test]
fn split_terminator_is_that_of_str() {
    let samples = vec!["", ",", "a", "a,", ",a", "a,b", "a,b,", "a,,b", ",,", "\u{e9},\u{1f600},x"];
    for sample in samples {
        let expected: Vec<&str> = sample.split_terminator(',').collect();
        assert_eq!(split_terminator(sample, ','), expected);
    }
}

#[test]
fn pieces_join_to_the_text() {
    let text = "one,two,,three";
    assert_eq!(split_terminator(text, ',').join(","), text);
    assert_eq!(split_terminator(text, ','), vec!["one", "two", "", "three"]);
}

#[test]
fn last_terminator_changes_nothing() {
    assert_eq!(split_terminator("a,b,", ','), split_terminator("a,b", ','));
}

#[test]
fn decimal_is_that_of_display() {
    for n in [0u64, 7, 9, 10, 11, 99, 100, 1234567890, u64::MAX] {
        assert_eq!(decimal_text(n), n.to_string());
    }
}

#[test]
fn prefixes() {
    assert!(starts_with("aceface", "ace"));
    assert!(starts_with("ace", ""));
    assert!(starts_with("ace", "ace"));
    assert!(!starts_with("ac", "ace"));
    assert!(!starts_with("bace", "ace"));
    assert!(!starts_with("ACE", "ace"));
    assert_eq!(skip_chars("\u{e9}ab", 1), "ab");
}

#[test]
fn small_texts() {
    assert_eq!(followed_by("a", "\u{e9}"), "a\u{e9}");
    assert!(same_text("abc", "abc"));
    assert!(!same_text("abc", "abd"));
    assert_eq!(chars_of("a\u{1f600}"), vec!['a', '\u{1f600}']);
}

#[test]
fn pieces_of_two_texts_behind_one_another() {
    for (front, back) in [("a,b", "c,"), ("a", ""), (",a", ",b")] {
        let mut expected = split_terminator(front, ',');
        expected.extend(split_terminator(back, ','));
        let both = format!("{},{}", front, back);
        assert_eq!(split_terminator(&both, ','), expected);
    }
}
