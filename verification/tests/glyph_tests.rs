use glyphana::glyph::{
    available_characters, capitalize, char_name, displayable, name_characters, placeholder,
    space_camel_case, special_char_name, title_case, to_lowercase_string, to_uppercase_string,
    GlyphScale,
};
use glyphana::text::{from_chars, to_chars};

#[test]
fn special_names_cover_controls_and_spaces() {
    assert_eq!(special_char_name('\0'), Some("Null"));
    assert_eq!(special_char_name('\t'), Some("Tab"));
    assert_eq!(special_char_name('\n'), Some("Line Feed"));
    assert_eq!(special_char_name('\x1f'), Some("Unit Separator"));
    assert_eq!(special_char_name(' '), Some("Space"));
    assert_eq!(special_char_name('\x7f'), Some("Delete"));
    assert_eq!(special_char_name('\u{00a0}'), Some("Non-breaking Space"));
    assert_eq!(special_char_name('\u{00ad}'), Some("Soft Hyphen"));
    assert_eq!(special_char_name('\u{200b}'), Some("Zero Width Space"));
    assert_eq!(special_char_name('\u{2064}'), Some("Invisible Plus"));
    assert_eq!(special_char_name('\u{206f}'), Some("Nominal Digit Shapes"));
    assert_eq!(special_char_name('\u{feff}'), Some("Zero Width No-break Space"));
    assert_eq!(special_char_name('\u{fffd}'), Some("Replacement Character"));
}

#[test]
fn other_characters_have_no_special_name() {
    assert_eq!(special_char_name('A'), None);
    assert_eq!(special_char_name('!'), None);
    assert_eq!(special_char_name('\u{2065}'), None);
    assert_eq!(special_char_name('\u{2010}'), None);
    assert_eq!(special_char_name('😀'), None);
    assert_eq!(special_char_name('\u{10FFFF}'), None);
}

#[test]
fn case_mapping_goes_character_by_character() {
    assert_eq!(to_lowercase_string("LATIN Capital"), "latin capital");
    assert_eq!(to_lowercase_string("ΑΒΓ"), "αβγ");
    assert_eq!(to_lowercase_string("İ"), "i\u{0307}");
    assert_eq!(to_lowercase_string("123 +-"), "123 +-");
    assert_eq!(to_lowercase_string(""), "");
    assert_eq!(to_uppercase_string("latin Capital"), "LATIN CAPITAL");
    assert_eq!(to_uppercase_string("ß"), "SS");
    assert_eq!(to_uppercase_string("ŉ"), "\u{02BC}N");
    assert_eq!(to_uppercase_string(""), "");
}

#[test]
fn capitalize_raises_the_first_character_and_lowers_the_rest() {
    assert_eq!(capitalize("LETTER"), "Letter");
    assert_eq!(capitalize("hELLO"), "Hello");
    assert_eq!(capitalize("a"), "A");
    assert_eq!(capitalize("ßETA"), "SSeta");
    assert_eq!(capitalize(""), "");
    assert_eq!(capitalize("1ST"), "1st");
}

#[test]
fn title_case_lowers_short_words() {
    assert_eq!(title_case("LATIN CAPITAL LETTER A"), "Latin Capital Letter a");
    assert_eq!(title_case("LATIN SMALL LETTER A WITH GRAVE"), "Latin Small Letter a With Grave");
    assert_eq!(title_case("GREEK SMALL LETTER ALPHA"), "Greek Small Letter Alpha");
    assert_eq!(title_case("EM DASH"), "em Dash");
    assert_eq!(title_case("DIGIT ONE"), "Digit one");
    assert_eq!(title_case("  HYPHEN-MINUS \t "), "Hyphen-minus");
    assert_eq!(title_case("AND"), "and");
    assert_eq!(title_case("And then"), "And Then");
    assert_eq!(title_case(""), "");
    assert_eq!(title_case("   "), "");
}

#[test]
fn camel_case_names_are_spaced() {
    assert_eq!(space_camel_case("percent"), "percent");
    assert_eq!(space_camel_case("exclamDown"), "exclam Down");
    assert_eq!(space_camel_case("Aacute"), "Aacute");
    assert_eq!(space_camel_case("uniE000"), "uni E000");
    assert_eq!(space_camel_case("AE"), "A E");
    assert_eq!(space_camel_case(""), "");
}

#[test]
fn placeholders_write_the_code_in_hexadecimal() {
    assert_eq!(placeholder('\0'), "U+0000");
    assert_eq!(placeholder('A'), "U+0041");
    assert_eq!(placeholder('\u{00AD}'), "U+00AD");
    assert_eq!(placeholder('\u{FFFF}'), "U+FFFF");
    assert_eq!(placeholder('\u{10000}'), "U+10000");
    assert_eq!(placeholder('😀'), "U+1F600");
    assert_eq!(placeholder('\u{10FFFF}'), "U+10FFFF");
}

#[test]
fn placeholders_agree_with_std_formatting() {
    for code in [0u32, 9, 0xA, 0xFF, 0x100, 0xABCD, 0xD7FF, 0xE000, 0x1_0000, 0xF_FFFF, 0x10_0000, 0x10_FFFF] {
        let c = char::from_u32(code).unwrap();
        assert_eq!(placeholder(c), format!("U+{:04X}", code));
    }
}

#[test]
fn names_are_found_layer_by_layer() {
    // The hand-curated table comes first.
    assert_eq!(char_name(' '), "Space");
    assert_eq!(char_name('\u{00a0}'), "Non-breaking Space");
    assert_eq!(char_name('\0'), "Null");
    // Then the Unicode name, in title case.
    assert_eq!(char_name('A'), "Latin Capital Letter a");
    assert_eq!(char_name('a'), "Latin Small Letter a");
    assert_eq!(char_name('-'), "Hyphen-minus");
    assert_eq!(char_name('α'), "Greek Small Letter Alpha");
    assert_eq!(char_name('😀'), "Grinning Face");
    assert_eq!(char_name('★'), "Black Star");
    // Then the glyph name, spaced and in title case.
    assert_eq!(char_name('\u{0080}'), "Uni0080");
    assert_eq!(char_name('\u{E000}'), "uni E000");
    assert_eq!(char_name('\u{10FFFF}'), "u10 f f f f");
}

#[test]
fn displayable_excludes_whitespace_and_controls() {
    assert!(displayable('A'));
    assert!(displayable('\u{00AD}'));
    assert!(displayable('\u{0080}'));
    assert!(!displayable(' '));
    assert!(!displayable('\t'));
    assert!(!displayable('\u{00A0}'));
    assert!(!displayable('\u{2003}'));
    assert!(!displayable('\u{3000}'));
    assert!(!displayable('\0'));
    assert!(!displayable('\x1f'));
    assert!(!displayable('\x7f'));
}

#[test]
fn the_index_is_built_from_the_displayable_characters() {
    let source = vec!['b', ' ', 'a', '\n', 'b', '😀', '\u{00A0}', '\x7f', 'A'];
    let index = available_characters(&source);
    let codepoints: Vec<char> = index.all().iter().map(|record| record.codepoint).collect();
    assert_eq!(codepoints, vec!['A', 'a', 'b', '😀']);
    assert_eq!(index.get(&'A'), Some(&"Latin Capital Letter a".to_string()));
    assert_eq!(index.get(&'😀'), Some(&"Grinning Face".to_string()));
    assert_eq!(index.get(&' '), None);
}

#[test]
fn an_empty_source_builds_an_empty_index() {
    assert!(available_characters(&vec![]).is_empty());
    assert!(available_characters(&vec![' ', '\t', '\0']).is_empty());
}

#[test]
fn name_characters_can_keep_what_is_not_displayable() {
    let source = vec!['b', ' ', 'a'];
    let index = name_characters(&source, false);
    let codepoints: Vec<char> = index.all().iter().map(|record| record.codepoint).collect();
    assert_eq!(codepoints, vec![' ', 'a', 'b']);
    assert_eq!(index.get(&' '), Some(&"Space".to_string()));
}

#[test]
fn strings_and_character_lists_convert_both_ways() {
    assert_eq!(to_chars("aé😀"), vec!['a', 'é', '😀']);
    assert_eq!(to_chars(""), Vec::<char>::new());
    assert_eq!(from_chars(&vec!['a', 'é', '😀']), "aé😀");
    assert_eq!(from_chars(&vec![]), "");
}

#[test]
fn glyph_scales_are_distinct() {
    let scales =
        [GlyphScale::Tiny, GlyphScale::Small, GlyphScale::Normal, GlyphScale::Large, GlyphScale::Huge];
    for (i, a) in scales.iter().enumerate() {
        for (j, b) in scales.iter().enumerate() {
            assert_eq!(a == b, i == j);
        }
    }
}
