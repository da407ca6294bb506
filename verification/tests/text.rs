use otoha::text::{chars_of, fields, is_white, lines, same_text, strip_all, text_of, trim, words};

const SAMPLES: [&str; 14] = [
    "",
    " ",
    "a",
    "  a b  ",
    "a\nb\r\nc\r",
    "\n\n",
    "\r\n",
    "x\n",
    "\u{a0}x\u{2003}y\u{3000}",
    "\u{200b}z",
    "a.b..c.",
    ".",
    "é\tß\u{85}漢",
    "one\u{b}two\u{c}three",
];

fn strings(parts: Vec<&[char]>) -> Vec<String> {
    parts.into_iter().map(text_of).collect()
}

#[test]
fn white_space_is_that_of_unicode() {
    for n in 0..=0x10ffffu32 {
        if let Some(c) = char::from_u32(n) {
            assert_eq!(is_white(c), c.is_whitespace(), "{n:x}");
        }
    }
}

#[test]
fn text_and_characters_round_trip() {
    for s in SAMPLES {
        let c = chars_of(s);
        assert_eq!(c, s.chars().collect::<Vec<char>>());
        assert_eq!(text_of(&c), s);
    }
}

#[test]
fn trimming_lines_words_and_fields_agree_with_std() {
    for s in SAMPLES {
        let c = chars_of(s);
        assert_eq!(text_of(trim(&c)), s.trim());
        assert_eq!(strings(lines(&c)), s.lines().collect::<Vec<_>>());
        assert_eq!(strings(words(&c)), s.split_whitespace().collect::<Vec<_>>());
        assert_eq!(strings(fields(&c, '.')), s.split('.').collect::<Vec<_>>());
    }
}

#[test]
fn stripping_takes_every_repetition() {
    let c = chars_of("abababc");
    assert_eq!(text_of(strip_all(&c, &chars_of("ab"))), "abababc".trim_start_matches("ab"));
    assert_eq!(text_of(strip_all(&c, &chars_of("x"))), "abababc");
    assert_eq!(text_of(strip_all(&c, &chars_of(""))), "abababc");
}

#[test]
fn texts_are_compared_whole() {
    assert!(same_text("", ""));
    assert!(same_text("é", "é"));
    assert!(!same_text("a", "ab"));
    assert!(!same_text("ab", "a"));
    assert!(!same_text("ab", "ac"));
}
