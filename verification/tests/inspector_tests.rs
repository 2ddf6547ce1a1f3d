use glyphana::inspector::{get_font_variations, get_related_characters, is_emoji, Font};

#[test]
fn related_characters_of_a_lowercase_letter() {
    assert_eq!(
        get_related_characters('a'),
        vec!['A', '^', '_', '`', 'b', 'c', 'd', 'e', 'à', 'á', 'â', 'ã']
    );
}

#[test]
fn related_characters_of_an_uppercase_letter() {
    assert_eq!(
        get_related_characters('Z'),
        vec!['z', 'W', 'X', 'Y', '[', '\\', ']', '^', 'ź', 'ž', 'ż']
    );
}

#[test]
fn related_characters_stay_in_the_block() {
    // The block of the Latin letters ends at U+007F and begins at U+0000.
    assert_eq!(get_related_characters('~'), vec!['{', '|', '}', '\u{7F}']);
    assert_eq!(get_related_characters('\u{1}'), vec!['\0', '\u{2}', '\u{3}', '\u{4}', '\u{5}']);
    assert_eq!(get_related_characters('\u{0370}'), vec!['ͱ', '\u{0372}', '\u{0373}', '\u{0374}']);
}

#[test]
fn related_characters_are_not_listed_twice() {
    // The uppercase of 'b' is no neighbour; 'a' and 'c' are, and 'b' has no accented forms.
    assert_eq!(get_related_characters('b'), vec!['B', '_', '`', 'a', 'c', 'd', 'e', 'f']);
    // The uppercase of 'ß' is "SS": case variants are listed as they come, so both are.
    let sharp_s = get_related_characters('ß');
    assert_eq!(&sharp_s[..2], &['S', 'S']);
    assert_eq!(sharp_s.len(), 9);
}

#[test]
fn related_characters_of_a_character_without_case() {
    assert_eq!(get_related_characters('5'), vec!['2', '3', '4', '6', '7', '8', '9']);
    assert_eq!(get_related_characters('😀'), vec!['😁', '😂', '😃', '😄']);
}

#[test]
fn the_emoji_font_covers_two_ranges() {
    assert!(is_emoji('😀'));
    assert!(is_emoji('\u{1F300}'));
    assert!(is_emoji('\u{10FFFF}'));
    assert!(is_emoji('☀'));
    assert!(is_emoji('\u{2600}'));
    assert!(is_emoji('\u{27BF}'));
    assert!(!is_emoji('\u{25FF}'));
    assert!(!is_emoji('\u{27C0}'));
    assert!(!is_emoji('\u{1F2FF}'));
    assert!(!is_emoji('A'));
}

#[test]
fn fonts_are_offered_by_range() {
    assert_eq!(get_font_variations('A'), vec![Font::NotoSans]);
    assert_eq!(get_font_variations('\u{1FFF}'), vec![Font::NotoSans]);
    assert_eq!(
        get_font_variations('\u{2000}'),
        vec![Font::NotoSans, Font::NotoSansSymbols, Font::NotoSansSymbols2]
    );
    assert_eq!(
        get_font_variations('∀'),
        vec![Font::NotoSans, Font::NotoSansSymbols, Font::NotoSansSymbols2, Font::NotoSansMath]
    );
    assert_eq!(
        get_font_variations('ℝ'),
        vec![Font::NotoSans, Font::NotoSansSymbols, Font::NotoSansSymbols2, Font::NotoSansMath]
    );
    assert_eq!(
        get_font_variations('\u{1D11E}'),
        vec![Font::NotoSans, Font::NotoSansSymbols, Font::NotoSansSymbols2, Font::NotoMusic]
    );
    assert_eq!(
        get_font_variations('☀'),
        vec![Font::NotoSans, Font::NotoSansSymbols, Font::NotoSansSymbols2, Font::NotoEmoji]
    );
    assert_eq!(
        get_font_variations('😀'),
        vec![Font::NotoSans, Font::NotoSansSymbols, Font::NotoSansSymbols2, Font::NotoEmoji]
    );
}
