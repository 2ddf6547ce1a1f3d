//! Display names of characters.
//!
//! A name is found in layers: a hand-curated table for control, format and
//! space characters; the Unicode name, in title case; the glyph name of the
//! Adobe glyph list, spaced and in title case; and at last a placeholder
//! written from the code.

use crate::index::{has_key, lemma_lookup_at, to_map, CharacterIndex};
use crate::text::{
    char_is_uppercase, char_is_whitespace, is_scalar_value, is_uppercase, is_whitespace,
    split_words, strings, to_chars, whitespace_words,
};
use vstd::prelude::*;
use vstd::utf8::encode_utf8;

verus! {

/// The codes that `unicode_case_mapping::to_lowercase` gives for `c`.
pub uninterp spec fn lowercase_codes(c: char) -> Seq<u32>;

/// The codes that `unicode_case_mapping::to_uppercase` gives for `c`.
pub uninterp spec fn uppercase_codes(c: char) -> Seq<u32>;

/// The name that `unicode_names2::name` gives for `c`, written out.
pub uninterp spec fn unicode_name_of(c: char) -> Option<Seq<char>>;

/// The glyph name that `glyph_names::glyph_name` gives for a code.
pub uninterp spec fn glyph_name_of(code: u32) -> Option<Seq<char>>;

/// Calls `unicode_case_mapping::to_lowercase`: the codes of the lowercase
/// equivalent of `c`, unused places set to 0; all 0 where `c` maps to itself.
#[verifier::external_body]
fn lowercase_mapping(c: char) -> (r: [u32; 2])
    ensures
        r@ == lowercase_codes(c),
{
    unicode_case_mapping::to_lowercase(c)
}

/// Calls `unicode_case_mapping::to_uppercase`: the codes of the uppercase
/// equivalent of `c`, unused places set to 0; all 0 where `c` maps to itself.
#[verifier::external_body]
fn uppercase_mapping(c: char) -> (r: [u32; 3])
    ensures
        r@ == uppercase_codes(c),
{
    unicode_case_mapping::to_uppercase(c)
}

/// Calls `unicode_names2::name` and writes the name out as a string.
#[verifier::external_body]
fn unicode_name(c: char) -> (r: Option<String>)
    ensures
        match r {
            Some(name) => unicode_name_of(c) == Some(name@),
            None => unicode_name_of(c) is None,
        },
{
    match unicode_names2::name(c) {
        Some(name) => Some(name.to_string()),
        None => None,
    }
}

/// Calls `glyph_names::glyph_name` and copies the name into a string.
#[verifier::external_body]
fn glyph_name(code: u32) -> (r: Option<String>)
    ensures
        match r {
            Some(name) => glyph_name_of(code) == Some(name@),
            None => glyph_name_of(code) is None,
        },
{
    match glyph_names::glyph_name(code) {
        Some(name) => Some(name.into_owned()),
        None => None,
    }
}

/// The characters that a case mapping names: those of its codes that are
/// not 0 and are scalar values, in order.
pub open spec fn mapped_chars(codes: Seq<u32>) -> Seq<char>
    decreases codes.len(),
{
    if codes.len() == 0 {
        Seq::empty()
    } else if codes.last() != 0 && is_scalar_value(codes.last() as int) {
        mapped_chars(codes.drop_last()).push(codes.last() as char)
    } else {
        mapped_chars(codes.drop_last())
    }
}

/// What a case mapping turns `c` into: the characters it names, or `c`
/// itself where it names none.
pub open spec fn case_mapped(c: char, codes: Seq<u32>) -> Seq<char> {
    if mapped_chars(codes).len() == 0 {
        seq![c]
    } else {
        mapped_chars(codes)
    }
}

/// A string with every character replaced by its lowercase equivalent.
pub open spec fn lowercased(s: Seq<char>) -> Seq<char>
    decreases s.len(),
{
    if s.len() == 0 {
        Seq::empty()
    } else {
        lowercased(s.drop_last()) + case_mapped(s.last(), lowercase_codes(s.last()))
    }
}

/// A string with every character replaced by its uppercase equivalent.
pub open spec fn uppercased(s: Seq<char>) -> Seq<char>
    decreases s.len(),
{
    if s.len() == 0 {
        Seq::empty()
    } else {
        uppercased(s.drop_last()) + case_mapped(s.last(), uppercase_codes(s.last()))
    }
}

/// A word with its first character in uppercase and the rest in lowercase.
pub open spec fn capitalized(s: Seq<char>) -> Seq<char> {
    if s.len() == 0 {
        Seq::empty()
    } else {
        uppercased(seq![s[0]]) + lowercased(s.skip(1))
    }
}

/// The length of a string in bytes of UTF-8.
pub open spec fn byte_length(s: Seq<char>) -> nat {
    encode_utf8(s).len()
}

/// A word in title case: short words (three bytes at most, but not `And`)
/// in lowercase, every other word capitalized.
pub open spec fn title_cased_word(word: Seq<char>) -> Seq<char> {
    if byte_length(word) <= 3 && word != seq!['A', 'n', 'd'] {
        lowercased(word)
    } else {
        capitalized(word)
    }
}

/// Words in title case, joined by single spaces.
pub open spec fn title_cased_words(words: Seq<Seq<char>>) -> Seq<char>
    decreases words.len(),
{
    if words.len() == 0 {
        Seq::empty()
    } else if words.len() == 1 {
        title_cased_word(words[0])
    } else {
        title_cased_words(words.drop_last()).push(' ') + title_cased_word(words.last())
    }
}

/// A string in title case: its whitespace-separated words in title case,
/// joined by single spaces.
pub open spec fn title_cased(s: Seq<char>) -> Seq<char> {
    title_cased_words(whitespace_words(s))
}

/// A camel-case name with a space before every uppercase character but the first.
pub open spec fn spaced(s: Seq<char>) -> Seq<char>
    decreases s.len(),
{
    if s.len() == 0 {
        Seq::empty()
    } else if s.len() > 1 && is_uppercase(s.last()) {
        spaced(s.drop_last()).push(' ').push(s.last())
    } else {
        spaced(s.drop_last()).push(s.last())
    }
}

/// The character that writes the value `v` of a hexadecimal digit, in uppercase.
pub open spec fn hex_digit(v: int) -> char {
    if v < 10 {
        (0x30 + v) as char
    } else {
        (0x41 + v - 10) as char
    }
}

/// The placeholder name of a character: `U+` and its code in uppercase
/// hexadecimal, with at least four digits.
pub open spec fn placeholder_name(c: char) -> Seq<char> {
    let code = c as int;
    let low = seq![
        hex_digit(code / 0x1000 % 16),
        hex_digit(code / 0x100 % 16),
        hex_digit(code / 0x10 % 16),
        hex_digit(code % 16),
    ];
    let prefix = seq!['U', '+'];
    if code >= 0x10_0000 {
        prefix + seq![hex_digit(code / 0x10_0000 % 16), hex_digit(code / 0x1_0000 % 16)] + low
    } else if code >= 0x1_0000 {
        prefix + seq![hex_digit(code / 0x1_0000 % 16)] + low
    } else {
        prefix + low
    }
}

/// The hand-curated name of a control, format or space character; `None`
/// for every other character.
#[verifier::opaque]
pub open spec fn special_name(c: char) -> Option<Seq<char>> {
    match c {
        '\0' => Some("Null"@),
        '\x01' => Some("Start of Heading"@),
        '\x02' => Some("Start of Text"@),
        '\x03' => Some("End of Text"@),
        '\x04' => Some("End of Transmission"@),
        '\x05' => Some("Enquiry"@),
        '\x06' => Some("Acknowledge"@),
        '\x07' => Some("Bell"@),
        '\x08' => Some("Backspace"@),
        '\t' => Some("Tab"@),
        '\n' => Some("Line Feed"@),
        '\x0b' => Some("Vertical Tab"@),
        '\x0c' => Some("Form Feed"@),
        '\r' => Some("Carriage Return"@),
        '\x0e' => Some("Shift Out"@),
        '\x0f' => Some("Shift In"@),
        '\x10' => Some("Data Link Escape"@),
        '\x11' => Some("Device Control 1"@),
        '\x12' => Some("Device Control 2"@),
        '\x13' => Some("Device Control 3"@),
        '\x14' => Some("Device Control 4"@),
        '\x15' => Some("Negative Acknowledge"@),
        '\x16' => Some("Synchronous Idle"@),
        '\x17' => Some("End of Transmission Block"@),
        '\x18' => Some("Cancel"@),
        '\x19' => Some("End of Medium"@),
        '\x1a' => Some("Substitute"@),
        '\x1b' => Some("Escape"@),
        '\x1c' => Some("File Separator"@),
        '\x1d' => Some("Group Separator"@),
        '\x1e' => Some("Record Separator"@),
        '\x1f' => Some("Unit Separator"@),
        ' ' => Some("Space"@),
        '\x7f' => Some("Delete"@),
        '\u{00a0}' => Some("Non-breaking Space"@),
        '\u{00ad}' => Some("Soft Hyphen"@),
        '\u{2000}' => Some("En Quad"@),
        '\u{2001}' => Some("Em Quad"@),
        '\u{2002}' => Some("En Space"@),
        '\u{2003}' => Some("Em Space"@),
        '\u{2004}' => Some("Three-per-em Space"@),
        '\u{2005}' => Some("Four-per-em Space"@),
        '\u{2006}' => Some("Six-per-em Space"@),
        '\u{2007}' => Some("Figure Space"@),
        '\u{2008}' => Some("Punctuation Space"@),
        '\u{2009}' => Some("Thin Space"@),
        '\u{200a}' => Some("Hair Space"@),
        '\u{200b}' => Some("Zero Width Space"@),
        '\u{200c}' => Some("Zero Width Non-joiner"@),
        '\u{200d}' => Some("Zero Width Joiner"@),
        '\u{200e}' => Some("Left-to-right Mark"@),
        '\u{200f}' => Some("Right-to-left Mark"@),
        '\u{2028}' => Some("Line Separator"@),
        '\u{2029}' => Some("Paragraph Separator"@),
        '\u{202a}' => Some("Left-to-right Embedding"@),
        '\u{202b}' => Some("Right-to-left Embedding"@),
        '\u{202c}' => Some("Pop Directional Formatting"@),
        '\u{202d}' => Some("Left-to-right Override"@),
        '\u{202e}' => Some("Right-to-left Override"@),
        '\u{202f}' => Some("Narrow No-break Space"@),
        '\u{205f}' => Some("Medium Mathematical Space"@),
        '\u{2060}' => Some("Word Joiner"@),
        '\u{2061}' => Some("Function Application"@),
        '\u{2062}' => Some("Invisible Times"@),
        '\u{2063}' => Some("Invisible Separator"@),
        '\u{2064}' => Some("Invisible Plus"@),
        '\u{2066}' => Some("Left-to-right Isolate"@),
        '\u{2067}' => Some("Right-to-left Isolate"@),
        '\u{2068}' => Some("First Strong Isolate"@),
        '\u{2069}' => Some("Pop Directional Isolate"@),
        '\u{206a}' => Some("Inhibit Symmetric Swapping"@),
        '\u{206b}' => Some("Activate Symmetric Swapping"@),
        '\u{206c}' => Some("Inhibit Arabic Form Shaping"@),
        '\u{206d}' => Some("Activate Arabic Form Shaping"@),
        '\u{206e}' => Some("National Digit Shapes"@),
        '\u{206f}' => Some("Nominal Digit Shapes"@),
        '\u{feff}' => Some("Zero Width No-break Space"@),
        '\u{fff9}' => Some("Interlinear Annotation Anchor"@),
        '\u{fffa}' => Some("Interlinear Annotation Separator"@),
        '\u{fffb}' => Some("Interlinear Annotation Terminator"@),
        '\u{fffc}' => Some("Object Replacement Character"@),
        '\u{fffd}' => Some("Replacement Character"@),
        _ => None,
    }
}

/// The hand-curated name of `chr`, if it has one.
pub fn special_char_name(chr: char) -> (r: Option<&'static str>)
    ensures
        match r {
            Some(name) => special_name(chr) == Some(name@),
            None => special_name(chr) is None,
        },
{
    proof {
        reveal(special_name);
    }
    match chr {
        '\0' => Some("Null"),
        '\x01' => Some("Start of Heading"),
        '\x02' => Some("Start of Text"),
        '\x03' => Some("End of Text"),
        '\x04' => Some("End of Transmission"),
        '\x05' => Some("Enquiry"),
        '\x06' => Some("Acknowledge"),
        '\x07' => Some("Bell"),
        '\x08' => Some("Backspace"),
        '\t' => Some("Tab"),
        '\n' => Some("Line Feed"),
        '\x0b' => Some("Vertical Tab"),
        '\x0c' => Some("Form Feed"),
        '\r' => Some("Carriage Return"),
        '\x0e' => Some("Shift Out"),
        '\x0f' => Some("Shift In"),
        '\x10' => Some("Data Link Escape"),
        '\x11' => Some("Device Control 1"),
        '\x12' => Some("Device Control 2"),
        '\x13' => Some("Device Control 3"),
        '\x14' => Some("Device Control 4"),
        '\x15' => Some("Negative Acknowledge"),
        '\x16' => Some("Synchronous Idle"),
        '\x17' => Some("End of Transmission Block"),
        '\x18' => Some("Cancel"),
        '\x19' => Some("End of Medium"),
        '\x1a' => Some("Substitute"),
        '\x1b' => Some("Escape"),
        '\x1c' => Some("File Separator"),
        '\x1d' => Some("Group Separator"),
        '\x1e' => Some("Record Separator"),
        '\x1f' => Some("Unit Separator"),
        ' ' => Some("Space"),
        '\x7f' => Some("Delete"),
        '\u{00a0}' => Some("Non-breaking Space"),
        '\u{00ad}' => Some("Soft Hyphen"),
        '\u{2000}' => Some("En Quad"),
        '\u{2001}' => Some("Em Quad"),
        '\u{2002}' => Some("En Space"),
        '\u{2003}' => Some("Em Space"),
        '\u{2004}' => Some("Three-per-em Space"),
        '\u{2005}' => Some("Four-per-em Space"),
        '\u{2006}' => Some("Six-per-em Space"),
        '\u{2007}' => Some("Figure Space"),
        '\u{2008}' => Some("Punctuation Space"),
        '\u{2009}' => Some("Thin Space"),
        '\u{200a}' => Some("Hair Space"),
        '\u{200b}' => Some("Zero Width Space"),
        '\u{200c}' => Some("Zero Width Non-joiner"),
        '\u{200d}' => Some("Zero Width Joiner"),
        '\u{200e}' => Some("Left-to-right Mark"),
        '\u{200f}' => Some("Right-to-left Mark"),
        '\u{2028}' => Some("Line Separator"),
        '\u{2029}' => Some("Paragraph Separator"),
        '\u{202a}' => Some("Left-to-right Embedding"),
        '\u{202b}' => Some("Right-to-left Embedding"),
        '\u{202c}' => Some("Pop Directional Formatting"),
        '\u{202d}' => Some("Left-to-right Override"),
        '\u{202e}' => Some("Right-to-left Override"),
        '\u{202f}' => Some("Narrow No-break Space"),
        '\u{205f}' => Some("Medium Mathematical Space"),
        '\u{2060}' => Some("Word Joiner"),
        '\u{2061}' => Some("Function Application"),
        '\u{2062}' => Some("Invisible Times"),
        '\u{2063}' => Some("Invisible Separator"),
        '\u{2064}' => Some("Invisible Plus"),
        '\u{2066}' => Some("Left-to-right Isolate"),
        '\u{2067}' => Some("Right-to-left Isolate"),
        '\u{2068}' => Some("First Strong Isolate"),
        '\u{2069}' => Some("Pop Directional Isolate"),
        '\u{206a}' => Some("Inhibit Symmetric Swapping"),
        '\u{206b}' => Some("Activate Symmetric Swapping"),
        '\u{206c}' => Some("Inhibit Arabic Form Shaping"),
        '\u{206d}' => Some("Activate Arabic Form Shaping"),
        '\u{206e}' => Some("National Digit Shapes"),
        '\u{206f}' => Some("Nominal Digit Shapes"),
        '\u{feff}' => Some("Zero Width No-break Space"),
        '\u{fff9}' => Some("Interlinear Annotation Anchor"),
        '\u{fffa}' => Some("Interlinear Annotation Separator"),
        '\u{fffb}' => Some("Interlinear Annotation Terminator"),
        '\u{fffc}' => Some("Object Replacement Character"),
        '\u{fffd}' => Some("Replacement Character"),
        _ => None,
    }
}

/// The display name of a character, layer by layer: the hand-curated name;
/// else the Unicode name in title case; else the glyph name, spaced and in
/// title case; else the placeholder. A layer that has no name for the
/// character, or an empty one, gives way to the next.
pub open spec fn display_name(c: char) -> Seq<char> {
    if special_name(c) is Some && special_name(c)->0.len() > 0 {
        special_name(c)->0
    } else if unicode_name_of(c) is Some && title_cased(unicode_name_of(c)->0).len() > 0 {
        title_cased(unicode_name_of(c)->0)
    } else if glyph_name_of(c as u32) is Some && title_cased(
        spaced(glyph_name_of(c as u32)->0),
    ).len() > 0 {
        title_cased(spaced(glyph_name_of(c as u32)->0))
    } else {
        placeholder_name(c)
    }
}

/// Every character has a display name, and it is not empty.
pub proof fn lemma_display_name_not_empty(c: char)
    ensures
        display_name(c).len() > 0,
{
}

/// Appends to `out` what a case mapping turns `c` into.
fn push_case_mapped(out: &mut String, c: char, codes: &[u32])
    ensures
        final(out)@ == old(out)@ + case_mapped(c, codes@),
{
    let ghost before = out@;
    let mut pushed: usize = 0;
    let mut i: usize = 0;
    while i < codes.len()
        invariant
            i <= codes.len(),
            pushed <= i,
            pushed == mapped_chars(codes@.take(i as int)).len(),
            out@ == before + mapped_chars(codes@.take(i as int)),
        decreases codes.len() - i,
    {
        proof {
            assert(codes@.take(i + 1).drop_last() =~= codes@.take(i as int));
        }
        let code = codes[i];
        if code != 0 {
            if let Some(mapped) = char::from_u32(code) {
                out.push(mapped);
                pushed = pushed + 1;
            }
        }
        i += 1;
    }
    proof {
        assert(codes@.take(i as int) =~= codes@);
    }
    if pushed == 0 {
        out.push(c);
        assert(out@ =~= before + seq![c]);
    }
}

/// A string with every character replaced by its lowercase equivalent.
pub fn to_lowercase_string(s: &str) -> (r: String)
    ensures
        r@ == lowercased(s@),
{
    let chars = to_chars(s);
    let mut r = String::new();
    let mut i: usize = 0;
    while i < chars.len()
        invariant
            i <= chars.len(),
            r@ == lowercased(chars@.take(i as int)),
        decreases chars.len() - i,
    {
        proof {
            assert(chars@.take(i + 1).drop_last() =~= chars@.take(i as int));
        }
        let codes = lowercase_mapping(chars[i]);
        push_case_mapped(&mut r, chars[i], codes.as_slice());
        i += 1;
    }
    proof {
        assert(chars@.take(i as int) =~= chars@);
    }
    r
}

/// A string with every character replaced by its uppercase equivalent.
pub fn to_uppercase_string(s: &str) -> (r: String)
    ensures
        r@ == uppercased(s@),
{
    let chars = to_chars(s);
    let mut r = String::new();
    let mut i: usize = 0;
    while i < chars.len()
        invariant
            i <= chars.len(),
            r@ == uppercased(chars@.take(i as int)),
        decreases chars.len() - i,
    {
        proof {
            assert(chars@.take(i + 1).drop_last() =~= chars@.take(i as int));
        }
        let codes = uppercase_mapping(chars[i]);
        push_case_mapped(&mut r, chars[i], codes.as_slice());
        i += 1;
    }
    proof {
        assert(chars@.take(i as int) =~= chars@);
    }
    r
}

/// Appends the characters of `tail` to `out`.
fn push_all(out: &mut String, tail: &str)
    ensures
        final(out)@ == old(out)@ + tail@,
{
    let chars = to_chars(tail);
    let ghost before = out@;
    let mut i: usize = 0;
    while i < chars.len()
        invariant
            i <= chars.len(),
            out@ == before + chars@.take(i as int),
        decreases chars.len() - i,
    {
        out.push(chars[i]);
        assert(chars@.take(i + 1) =~= chars@.take(i as int).push(chars@[i as int]));
        i += 1;
    }
    assert(chars@.take(i as int) =~= chars@);
}

/// A word with its first character in uppercase and the rest in lowercase.
pub fn capitalize(s: &str) -> (r: String)
    ensures
        r@ == capitalized(s@),
{
    let chars = to_chars(s);
    if chars.len() == 0 {
        return String::new();
    }
    let mut r = String::new();
    let upper = uppercase_mapping(chars[0]);
    push_case_mapped(&mut r, chars[0], upper.as_slice());
    proof {
        let first = seq![s@[0]];
        assert(first.drop_last() =~= Seq::<char>::empty());
        assert(uppercased(Seq::<char>::empty()) =~= Seq::<char>::empty());
        assert(first.last() == s@[0]);
        assert(uppercased(first) =~= case_mapped(s@[0], uppercase_codes(s@[0])));
    }
    let mut i: usize = 1;
    let ghost head = r@;
    let ghost rest = chars@.skip(1);
    while i < chars.len()
        invariant
            1 <= i <= chars.len(),
            rest == chars@.skip(1),
            r@ == head + lowercased(rest.take(i - 1)),
        decreases chars.len() - i,
    {
        proof {
            assert(rest.take(i as int).drop_last() =~= rest.take(i - 1));
            assert(rest.take(i as int).last() == chars@[i as int]);
        }
        let codes = lowercase_mapping(chars[i]);
        push_case_mapped(&mut r, chars[i], codes.as_slice());
        i += 1;
    }
    proof {
        assert(rest.take(i - 1) =~= rest);
    }
    r
}

/// Whether `word` is the word `And`.
fn is_and(word: &str) -> (r: bool)
    ensures
        r == (word@ == seq!['A', 'n', 'd']),
{
    let chars = to_chars(word);
    let r = chars.len() == 3 && chars[0] == 'A' && chars[1] == 'n' && chars[2] == 'd';
    proof {
        if r {
            assert(word@ =~= seq!['A', 'n', 'd']);
        }
    }
    r
}

/// A string in title case.
pub fn title_case(s: &str) -> (r: String)
    ensures
        r@ == title_cased(s@),
{
    let words = split_words(s);
    let mut r = String::new();
    let mut i: usize = 0;
    while i < words.len()
        invariant
            i <= words.len(),
            strings(words@) == whitespace_words(s@),
            r@ == title_cased_words(strings(words@).take(i as int)),
        decreases words.len() - i,
    {
        proof {
            assert(strings(words@).take(i + 1).drop_last() =~= strings(words@).take(i as int));
            assert(strings(words@).take(i + 1).last() == words@[i as int]@);
        }
        let ghost joined = r@;
        if i > 0 {
            r.push(' ');
        }
        let word = words[i].as_str();
        let cased = if word.as_bytes().len() <= 3 && !is_and(word) {
            to_lowercase_string(word)
        } else {
            capitalize(word)
        };
        assert(cased@ == title_cased_word(words@[i as int]@));
        push_all(&mut r, cased.as_str());
        proof {
            let done = strings(words@).take(i + 1);
            if i == 0 {
                assert(done.len() == 1);
                assert(joined =~= Seq::<char>::empty());
                assert(r@ =~= cased@);
                assert(done[0] == words@[0]@);
            } else {
                assert(done.len() > 1);
                assert(r@ =~= joined.push(' ') + cased@);
            }
        }
        i += 1;
    }
    proof {
        assert(strings(words@).take(i as int) =~= strings(words@));
    }
    r
}

/// A camel-case name with a space before every uppercase character but the first.
pub fn space_camel_case(s: &str) -> (r: String)
    ensures
        r@ == spaced(s@),
{
    let chars = to_chars(s);
    let mut r = String::new();
    let mut i: usize = 0;
    while i < chars.len()
        invariant
            i <= chars.len(),
            r@ == spaced(chars@.take(i as int)),
        decreases chars.len() - i,
    {
        proof {
            assert(chars@.take(i + 1).drop_last() =~= chars@.take(i as int));
        }
        if i > 0 && char_is_uppercase(chars[i]) {
            r.push(' ');
        }
        r.push(chars[i]);
        i += 1;
    }
    proof {
        assert(chars@.take(i as int) =~= chars@);
    }
    r
}

/// The character that writes a hexadecimal digit, in uppercase.
fn hex_digit_char(v: u32) -> (r: char)
    requires
        v < 16,
    ensures
        r == hex_digit(v as int),
{
    let code: u32 = if v < 10 {
        0x30 + v
    } else {
        0x41 + v - 10
    };
    match char::from_u32(code) {
        Some(c) => c,
        None => '0',
    }
}

/// The placeholder name of a character.
pub fn placeholder(c: char) -> (r: String)
    ensures
        r@ == placeholder_name(c),
{
    let code: u32 = c as u32;
    let mut r = String::new();
    r.push('U');
    r.push('+');
    if code >= 0x10_0000 {
        r.push(hex_digit_char(code / 0x10_0000 % 16));
    }
    if code >= 0x1_0000 {
        r.push(hex_digit_char(code / 0x1_0000 % 16));
    }
    r.push(hex_digit_char(code / 0x1000 % 16));
    r.push(hex_digit_char(code / 0x100 % 16));
    r.push(hex_digit_char(code / 0x10 % 16));
    r.push(hex_digit_char(code % 16));
    assert(r@ =~= placeholder_name(c));
    r
}

/// The display name of a character. Every character gets one, and none is empty.
pub fn char_name(chr: char) -> (r: String)
    ensures
        r@ == display_name(chr),
        r@.len() > 0,
{
    if let Some(name) = special_char_name(chr) {
        if !name.is_empty() {
            return name.to_owned();
        }
    }
    if let Some(name) = unicode_name(chr) {
        let titled = title_case(name.as_str());
        if !titled.as_str().is_empty() {
            return titled;
        }
    }
    if let Some(adobe_name) = glyph_name(chr as u32) {
        let spaced_name = space_camel_case(adobe_name.as_str());
        let titled = title_case(spaced_name.as_str());
        if !titled.as_str().is_empty() {
            return titled;
        }
    }
    placeholder(chr)
}

/// Whether `c` is an ASCII control character.
pub open spec fn is_ascii_control(c: char) -> bool {
    c as u32 <= 0x1F || c as u32 == 0x7F
}

/// Whether a character is displayable: neither whitespace nor an ASCII control character.
pub open spec fn is_displayable(c: char) -> bool {
    !is_whitespace(c) && !is_ascii_control(c)
}

/// Whether a character is displayable.
pub fn displayable(c: char) -> (r: bool)
    ensures
        r == is_displayable(c),
{
    let code: u32 = c as u32;
    !char_is_whitespace(c) && !(code <= 0x1F || code == 0x7F)
}

/// The table of the characters of a source, each under its display name;
/// of the displayable ones alone where `only_displayable` is set.
pub open spec fn named_table(source: Seq<char>, only_displayable: bool) -> Map<char, Seq<char>> {
    Map::new(
        |c: char| source.contains(c) && (is_displayable(c) || !only_displayable),
        |c: char| display_name(c),
    )
}

/// The table that is built from the characters of a font: one entry for
/// each displayable character of the source, under its display name.
pub open spec fn built_table(source: Seq<char>) -> Map<char, Seq<char>> {
    named_table(source, true)
}

/// Builds the index of the characters of `source`, each under its display
/// name. The source may be in any order and may repeat characters.
pub fn name_characters(source: &Vec<char>, only_displayable: bool) -> (r: CharacterIndex)
    ensures
        to_map(r@) == named_table(source@, only_displayable),
        forall|i: int| 0 <= i < r@.len() ==> (#[trigger] r@[i]).1.len() > 0,
{
    let mut index = CharacterIndex::new();
    let mut i: usize = 0;
    proof {
        assert(to_map(index@) =~= named_table(source@.take(0), only_displayable));
    }
    while i < source.len()
        invariant
            i <= source.len(),
            to_map(index@) == named_table(source@.take(i as int), only_displayable),
        decreases source.len() - i,
    {
        let c = source[i];
        let ghost before = source@.take(i as int);
        let ghost after = source@.take(i + 1);
        proof {
            assert(after =~= before.push(c));
            assert forall|d: char| after.contains(d) == (before.contains(d) || d == c) by {
                if before.contains(d) {
                    let k = choose|k: int| 0 <= k < before.len() && before[k] == d;
                    assert(after[k] == d);
                }
                if d == c {
                    assert(after[i as int] == d);
                }
                if after.contains(d) {
                    let k = choose|k: int| 0 <= k < after.len() && after[k] == d;
                    if k < i {
                        assert(before[k] == d);
                    }
                }
            }
        }
        if (!only_displayable || displayable(c)) && !index.contains_key(&c) {
            index.insert(c, char_name(c));
            proof {
                assert(to_map(index@) =~= named_table(after, only_displayable));
            }
        } else {
            proof {
                assert(to_map(index@).contains_key(c) == has_key(index@, c));
                assert(to_map(index@) =~= named_table(after, only_displayable));
            }
        }
        i += 1;
    }
    proof {
        assert(source@.take(i as int) =~= source@);
        use_type_invariant(&index);
        assert forall|k: int| 0 <= k < index@.len() implies (#[trigger] index@[k]).1.len() > 0 by {
            lemma_lookup_at(index@, k);
            assert(to_map(index@).contains_key(index@[k].0));
            assert(to_map(index@)[index@[k].0] == index@[k].1);
            lemma_display_name_not_empty(index@[k].0);
        }
    }
    index
}

/// Builds the character index from the characters that a font offers: the
/// displayable ones, each under its display name.
pub fn available_characters(source: &Vec<char>) -> (r: CharacterIndex)
    ensures
        to_map(r@) == built_table(source@),
        forall|i: int| 0 <= i < r@.len() ==> (#[trigger] r@[i]).1.len() > 0,
{
    name_characters(source, true)
}

/// The size at which glyphs are shown.
#[derive(Copy, Clone, Debug, PartialEq, Eq)]
pub enum GlyphScale {
    Tiny,
    Small,
    Normal,
    Large,
    Huge,
}

} // verus!
