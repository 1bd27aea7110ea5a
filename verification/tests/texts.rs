use transcript_export::text::{
    contains, is_text, is_whitespace, squeeze, starts_with, to_lines, trim_end,
};

fn chars(text: &str) -> Vec<char> {
    text.chars().collect()
}

const SAMPLES: [&str; 10] = [
    "",
    " ",
    "a",
    "  two  words ",
    "\ttab\u{a0}and\u{3000}wide\u{2003}",
    "no\u{200b}break",
    "日本語  \u{85}",
    "a\u{2028}b\u{2029}c",
    "trailing \n\r\n",
    " q close   esc to edit prev",
];

#[test]
fn white_space_is_what_unicode_says() {
    for n in 0..=0x10ffff_u32 {
        if let Some(c) = char::from_u32(n) {
            assert_eq!(is_whitespace(c), c.is_whitespace(), "{n:x}");
        }
    }
}

#[test]
fn trim_end_drops_white_space_at_the_end() {
    assert_eq!(trim_end("  a b \t"), "  a b");
    for sample in SAMPLES {
        assert_eq!(trim_end(sample), sample.trim_end());
    }
}

#[test]
fn squeeze_leaves_single_spaces() {
    assert_eq!(squeeze("  a \t b  "), chars("a b"));
    for sample in SAMPLES {
        let words: Vec<&str> = sample.split_whitespace().collect();
        assert_eq!(squeeze(sample), chars(&words.join(" ")));
    }
}

#[test]
fn texts_are_compared_and_searched() {
    assert!(is_text(&chars("↑/↓"), "↑/↓"));
    assert!(!is_text(&chars("↑/↓ "), "↑/↓"));
    assert!(!is_text(&chars("↑/"), "↑/↓"));
    assert!(starts_with(&chars("─── 5%"), "───"));
    assert!(starts_with(&chars("───"), "───"));
    assert!(!starts_with(&chars("──"), "───"));
    for sample in SAMPLES {
        for pattern in ["", "a", "two", "b\u{2029}c", "prev", "prev ", "日"] {
            assert_eq!(contains(sample, pattern), sample.contains(pattern));
        }
    }
}

#[test]
fn lines_end_with_a_line_feed() {
    assert_eq!(to_lines(&Vec::new()), "\n");
    assert_eq!(to_lines(&vec!["a".to_owned()]), "a\n");
    assert_eq!(
        to_lines(&vec!["a".to_owned(), String::new(), "日".to_owned()]),
        "a\n\n日\n"
    );
}
