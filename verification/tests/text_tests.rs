use glyphana::text::{char_to_string, contains_str, split_words, starts_with_str, trim};

const SAMPLES: [&str; 16] = [
    "",
    " ",
    "a",
    " a",
    "a ",
    "  Latin\tSmall  LETTER ",
    "\n\tU+0041\r\n",
    "no-break\u{00A0}space",
    "\u{2003}em\u{2003}space\u{2003}",
    "\u{3000}ideographic\u{3000}",
    "zero\u{200B}width",
    "line\u{2028}separator",
    "αβγ δεζ",
    "😀 😁",
    " \t \n ",
    "a  b   c",
];

#[test]
fn trim_removes_the_whitespace_at_both_ends() {
    assert_eq!(trim("  u+0041  "), "u+0041");
    assert_eq!(trim("\t a b \n"), "a b");
    assert_eq!(trim("\u{00A0}x\u{3000}"), "x");
    assert_eq!(trim("x"), "x");
    assert_eq!(trim("   "), "");
    assert_eq!(trim(""), "");
    // A zero width space is no whitespace.
    assert_eq!(trim("\u{200B}x"), "\u{200B}x");
}

#[test]
fn trim_agrees_with_std() {
    for sample in SAMPLES {
        assert_eq!(trim(sample), sample.trim(), "{sample:?}");
    }
}

#[test]
fn words_are_the_runs_between_whitespace() {
    assert_eq!(split_words("latin letter"), vec!["latin", "letter"]);
    assert_eq!(split_words("  latin \t\n letter  "), vec!["latin", "letter"]);
    assert_eq!(split_words("one"), vec!["one"]);
    assert_eq!(split_words("a\u{00A0}b"), vec!["a", "b"]);
    assert_eq!(split_words("hyphen-minus"), vec!["hyphen-minus"]);
    assert_eq!(split_words(""), Vec::<String>::new());
    assert_eq!(split_words(" \t "), Vec::<String>::new());
}

#[test]
fn words_agree_with_std() {
    for sample in SAMPLES {
        let expected: Vec<String> = sample.split_whitespace().map(str::to_string).collect();
        assert_eq!(split_words(sample), expected, "{sample:?}");
    }
}

#[test]
fn containment_is_of_contiguous_runs() {
    assert!(contains_str("Greek Small Letter Alpha", "Small"));
    assert!(contains_str("Greek Small Letter Alpha", "k S"));
    assert!(contains_str("Greek Small Letter Alpha", "Alpha"));
    assert!(contains_str("Greek Small Letter Alpha", "G"));
    assert!(contains_str("Greek Small Letter Alpha", ""));
    assert!(contains_str("", ""));
    assert!(contains_str("aab", "ab"));
    assert!(contains_str("αβγ", "βγ"));
    assert!(!contains_str("Greek Small Letter Alpha", "small"));
    assert!(!contains_str("Greek Small Letter Alpha", "GSLA"));
    assert!(!contains_str("Greek", "Greeks"));
    assert!(!contains_str("", "a"));
    assert!(!contains_str("αβγ", "αγ"));
}

#[test]
fn containment_and_prefixes_agree_with_std() {
    for hay in SAMPLES {
        for needle in SAMPLES.iter().chain(["a", "b", "α", " ", "sp", "Latin", "LETTER "].iter()) {
            assert_eq!(contains_str(hay, needle), hay.contains(needle), "{hay:?} {needle:?}");
            assert_eq!(starts_with_str(hay, needle), hay.starts_with(needle), "{hay:?} {needle:?}");
        }
    }
}

#[test]
fn a_prefix_stands_at_the_beginning() {
    assert!(starts_with_str("magnifying", "mag"));
    assert!(starts_with_str("magnifying", "magnifying"));
    assert!(starts_with_str("magnifying", ""));
    assert!(starts_with_str("", ""));
    assert!(!starts_with_str("magnifying", "agn"));
    assert!(!starts_with_str("mag", "magn"));
    assert!(!starts_with_str("", "m"));
    assert!(!starts_with_str("Mag", "mag"));
}

#[test]
fn a_character_makes_a_string_of_its_own() {
    assert_eq!(char_to_string('a'), "a");
    assert_eq!(char_to_string('😀'), "😀");
    assert_eq!(char_to_string('\0'), "\0");
}
