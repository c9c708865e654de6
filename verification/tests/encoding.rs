use keyword_rewrite::charclass::word_char;
use keyword_rewrite::encoding::{decode, utf8_width};

#[test]
fn width_of_each_encoded_length() {
    assert_eq!(utf8_width('a'), 1);
    assert_eq!(utf8_width('\0'), 1);
    assert_eq!(utf8_width('\u{7f}'), 1);
    assert_eq!(utf8_width('\u{80}'), 2);
    assert_eq!(utf8_width('é'), 2);
    assert_eq!(utf8_width('\u{7ff}'), 2);
    assert_eq!(utf8_width('\u{800}'), 3);
    assert_eq!(utf8_width('€'), 3);
    assert_eq!(utf8_width('\u{ffff}'), 3);
    assert_eq!(utf8_width('\u{10000}'), 4);
    assert_eq!(utf8_width('😀'), 4);
    assert_eq!(utf8_width('\u{10ffff}'), 4);
}

#[test]
fn width_agrees_with_the_standard_library() {
    for c in ['a', 'é', '€', '😀', '\u{d7ff}', '\u{e000}'] {
        assert_eq!(utf8_width(c), c.len_utf8());
    }
}

#[test]
fn decode_gives_the_characters_in_order() {
    assert_eq!(decode(""), Vec::<char>::new());
    assert_eq!(decode("aé€😀"), vec!['a', 'é', '€', '😀']);
}

#[test]
fn word_characters_are_ascii_letters_digits_and_underscore() {
    for c in ['a', 'z', 'A', 'Z', '0', '9', '_', 'm', 'Q', '5'] {
        assert!(word_char(c), "{}", c);
    }
    for c in ['é', ' ', '-', '/', '"', '`', '{', '@', '[', ':', '\u{2f}', 'ß', '٣'] {
        assert!(!word_char(c), "{}", c);
    }
}
