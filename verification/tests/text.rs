use hypr_events::text::{characters, is_whitespace, same_text, split_once, trim};

#[test]
fn white_space_is_the_unicode_property() {
    for code in 0..=0x10FFFFu32 {
        if let Some(c) = char::from_u32(code) {
            assert_eq!(is_whitespace(c), c.is_whitespace(), "U+{:04X}", code);
        }
    }
}

#[test]
fn white_space_has_twenty_five_code_points() {
    let count = (0..=0x10FFFFu32).filter_map(char::from_u32).filter(|c| is_whitespace(*c)).count();
    assert_eq!(count, 25);
}

#[test]
fn characters_are_the_chars_of_the_text() {
    assert_eq!(characters(""), Vec::<char>::new());
    assert_eq!(characters("a>b"), vec!['a', '>', 'b']);
    assert_eq!(characters("é日"), vec!['é', '日']);
}

#[test]
fn trim_drops_white_space_at_both_ends() {
    assert_eq!(trim("  a b \n"), "a b");
    assert_eq!(trim("a"), "a");
    assert_eq!(trim(""), "");
    assert_eq!(trim(" \t\r\n"), "");
    assert_eq!(trim("\u{2003}x\u{85}"), "x");
    assert_eq!(trim("\u{200b}x"), "\u{200b}x");
}

#[test]
fn trim_agrees_with_the_standard_library() {
    let samples = [
        "",
        " ",
        "a",
        " a",
        "a ",
        " a ",
        "\n\ta  b\r\n",
        "\u{a0}\u{1680}é \u{2028}\u{2029}",
        "\u{180e}x\u{180e}",
        "日本 語\u{3000}",
        "   ",
        "workspace>>3\n",
    ];
    for sample in samples {
        assert_eq!(trim(sample), sample.trim(), "{:?}", sample);
    }
}

#[test]
fn trim_is_idempotent() {
    for sample in ["", "  a  ", "\n", " a b ", "x"] {
        assert_eq!(trim(trim(sample)), trim(sample));
    }
}

#[test]
fn split_once_splits_at_the_first_occurrence() {
    assert_eq!(split_once("a>>b", ">>"), Some(("a", "b")));
    assert_eq!(split_once("a>>b>>c", ">>"), Some(("a", "b>>c")));
    assert_eq!(split_once("a>>>b", ">>"), Some(("a", ">b")));
    assert_eq!(split_once(">>", ">>"), Some(("", "")));
    assert_eq!(split_once("a,b,c", ","), Some(("a", "b,c")));
    assert_eq!(split_once(",", ","), Some(("", "")));
    assert_eq!(split_once("é,日", ","), Some(("é", "日")));
}

#[test]
fn split_once_without_occurrence_is_none() {
    assert_eq!(split_once("", ">>"), None);
    assert_eq!(split_once(">", ">>"), None);
    assert_eq!(split_once("a>b>c", ">>"), None);
    assert_eq!(split_once("abc", ","), None);
    assert_eq!(split_once("ab", "abc"), None);
}

#[test]
fn split_once_agrees_with_the_standard_library() {
    let texts = ["", "a", ">>", "a>>b", ">>>", "a>b>>c>>d", ",,", "a,b", "abcabc", "é>>é", "aab"];
    let patterns = [">>", ",", "a", "ab", "abc", "é", ""];
    for text in texts {
        for pattern in patterns {
            assert_eq!(
                split_once(text, pattern),
                text.split_once(pattern),
                "{:?} at {:?}",
                text,
                pattern
            );
        }
    }
}

#[test]
fn same_text_compares_characters() {
    assert!(same_text(&['a', 'b'], "ab"));
    assert!(same_text(&[], ""));
    assert!(!same_text(&['a', 'b'], "abc"));
    assert!(!same_text(&['a', 'b', 'c'], "ab"));
    assert!(!same_text(&['a', 'b'], "ac"));
    assert!(same_text(&['é'], "é"));
}
