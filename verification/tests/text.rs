use nodeco::parse_text_file;
use nodeco::text::{
    collect_chars, count_leading_white_space, count_trailing_white_space, count_word,
    decimal_text, find, is_white_space, push_utf8, same_text, starts_with, trim, utf8_bytes,
};

fn every_char() -> impl Iterator<Item = char> {
    (0u32..=0x10FFFF).filter_map(char::from_u32)
}

#[test]
fn white_space_is_what_std_calls_white_space() {
    for c in every_char() {
        assert_eq!(is_white_space(c), c.is_whitespace(), "{:?}", c);
    }
}

#[test]
fn utf8_of_every_char() {
    for c in every_char() {
        let mut out = vec![0xAA];
        push_utf8(&mut out, c);
        let mut buffer = [0u8; 4];
        let expected = c.encode_utf8(&mut buffer).as_bytes();
        assert_eq!(&out[1..], expected, "{:?}", c);
        assert_eq!(out[0], 0xAA);
    }
}

#[test]
fn utf8_of_a_text() {
    let text = "a\u{e9}\u{20ac}\u{1f600}z";
    let chars: Vec<char> = text.chars().collect();
    assert_eq!(utf8_bytes(&chars), text.as_bytes().to_vec());
    assert_eq!(utf8_bytes(&[]), Vec::<u8>::new());
}

#[test]
fn chars_of_a_text() {
    assert_eq!(collect_chars("h\u{e9}!"), vec!['h', '\u{e9}', '!']);
    assert_eq!(collect_chars(""), Vec::<char>::new());
}

#[test]
fn decimal_of_every_byte() {
    for value in 0..=255u8 {
        assert_eq!(decimal_text(value), value.to_string());
    }
}

const SAMPLES: [&str; 12] = [
    "",
    " ",
    "abc",
    "  abc",
    "abc  ",
    " \t a b \r\n",
    "\u{3000}x\u{a0}",
    "\u{200b} x",
    "a\u{2003}b",
    "   ",
    "\u{85}\u{1680}q\u{2028}\u{2029}",
    "x\u{feff}",
];

#[test]
fn trim_is_what_std_trims() {
    for sample in SAMPLES {
        let chars: Vec<char> = sample.chars().collect();
        let expected: Vec<char> = sample.trim().chars().collect();
        assert_eq!(trim(&chars).to_vec(), expected, "{:?}", sample);
    }
}

#[test]
fn counting_white_space_and_words() {
    for sample in SAMPLES {
        let chars: Vec<char> = sample.chars().collect();
        let leading = sample.chars().take_while(|c| c.is_whitespace()).count();
        let trailing = sample.chars().rev().take_while(|c| c.is_whitespace()).count();
        let word = sample.chars().take_while(|c| !c.is_whitespace()).count();
        assert_eq!(count_leading_white_space(&chars), leading, "{:?}", sample);
        assert_eq!(count_trailing_white_space(&chars), trailing, "{:?}", sample);
        assert_eq!(count_word(&chars), word, "{:?}", sample);
    }
}

#[test]
fn find_gives_the_first_position_or_the_length() {
    let chars: Vec<char> = "a=b=c".chars().collect();
    assert_eq!(find(&chars, '='), 1);
    assert_eq!(find(&chars, 'a'), 0);
    assert_eq!(find(&chars, 'c'), 4);
    assert_eq!(find(&chars, 'x'), 5);
    assert_eq!(find(&[], 'x'), 0);
}

#[test]
fn prefixes_and_equal_texts() {
    let chars: Vec<char> = "label 1".chars().collect();
    assert!(starts_with(&chars, "label "));
    assert!(starts_with(&chars, ""));
    assert!(starts_with(&chars, "label 1"));
    assert!(!starts_with(&chars, "label 12"));
    assert!(!starts_with(&chars, "Label"));
    assert!(same_text(&chars, "label 1"));
    assert!(!same_text(&chars, "label "));
    assert!(!same_text(&chars, "label 12"));
    assert!(same_text(&[], ""));
}

#[test]
fn label_ids_are_what_std_parses() {
    let words = [
        "0", "1", "9", "10", "99", "100", "199", "200", "249", "250", "255", "256", "260", "299",
        "300", "999", "1000", "00", "0255", "0256", "+0", "+255", "+256", "++1", "-0", "-1", "+",
        "-", "1+", "1_0", "0x10", "1e2", "\u{661}", "\u{ff11}", "12a", "a12", "4294967296",
        "18446744073709551616", "000000000000000000000000000000255",
    ];
    for word in words {
        let expected = word.parse::<u8>().unwrap_or(0);
        let bytes = parse_text_file(&format!("label {}", word));
        assert_eq!(bytes[6], expected, "{:?}", word);
    }
}

#[test]
fn lines_are_what_std_splits() {
    let sources = [
        "show_ui\nshow_ui",
        "show_ui\r\nshow_ui\r\n",
        "\n\nshow_ui\n\n",
        "show_ui\rshow_ui",
        "show_ui\n show_ui \n\tshow_ui",
        "show_ui\u{2028}show_ui",
    ];
    for source in sources {
        let expected = source.lines().filter(|line| line.trim() == "show_ui").count();
        assert_eq!(parse_text_file(source).len(), 4 + expected, "{:?}", source);
    }
}
