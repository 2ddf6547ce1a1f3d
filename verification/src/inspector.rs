//! Inspecting one character: the characters related to it, and the fonts to show it in.

use crate::blocks::{scalar_range, unicode_block_of, UnicodeBlock};
use crate::selection::other_than;
use crate::seqs::{lemma_filter_empty, lemma_filter_push};
use crate::text::{char_is_uppercase, is_uppercase};
use vstd::prelude::*;

verus! {

/// The Unicode `Lowercase` property, as `char::is_lowercase` reports it.
pub uninterp spec fn is_lowercase(c: char) -> bool;

/// The uppercase equivalent of a character, as `char::to_uppercase` yields it.
pub uninterp spec fn uppercase_of_char(c: char) -> Seq<char>;

/// The lowercase equivalent of a character, as `char::to_lowercase` yields it.
pub uninterp spec fn lowercase_of_char(c: char) -> Seq<char>;

/// `char::is_lowercase`.
#[verifier::external_body]
fn char_is_lowercase(c: char) -> (r: bool)
    ensures
        r == is_lowercase(c),
{
    c.is_lowercase()
}

/// `char::to_uppercase`, the characters that it yields collected in order.
#[verifier::external_body]
fn char_to_uppercase(c: char) -> (r: Vec<char>)
    ensures
        r@ == uppercase_of_char(c),
{
    c.to_uppercase().collect()
}

/// `char::to_lowercase`, the characters that it yields collected in order.
#[verifier::external_body]
fn char_to_lowercase(c: char) -> (r: Vec<char>)
    ensures
        r@ == lowercase_of_char(c),
{
    c.to_lowercase().collect()
}

/// The most related characters that are listed.
pub const MAX_RELATED: usize = 12;

/// How far below a character its neighbours reach.
pub const NEIGHBOURS_BELOW: u32 = 3;

/// How far above a character its neighbours reach.
pub const NEIGHBOURS_ABOVE: u32 = 4;

/// The other case of a character: its uppercase equivalent if it is
/// lowercase, its lowercase equivalent if it is uppercase, without the
/// character itself.
pub open spec fn case_variants(c: char) -> Seq<char> {
    if is_lowercase(c) {
        uppercase_of_char(c).filter(other_than(c))
    } else if is_uppercase(c) {
        lowercase_of_char(c).filter(other_than(c))
    } else {
        Seq::empty()
    }
}

/// The first code of the neighbourhood of `c` in `block`.
pub open spec fn neighbourhood_start(c: char, block: UnicodeBlock) -> int {
    let below = if c as int >= NEIGHBOURS_BELOW {
        c as int - NEIGHBOURS_BELOW
    } else {
        0
    };
    if block.start >= below {
        block.start as int
    } else {
        below
    }
}

/// The last code of the neighbourhood of `c` in `block`.
pub open spec fn neighbourhood_end(c: char, block: UnicodeBlock) -> int {
    if block.end <= c as int + NEIGHBOURS_ABOVE {
        block.end as int
    } else {
        c as int + NEIGHBOURS_ABOVE
    }
}

/// The neighbours of a character: the characters of its block from three
/// below it to four above it, ascending, without the character itself.
pub open spec fn neighbours(c: char) -> Seq<char> {
    match unicode_block_of(c) {
        Some(block) => scalar_range(
            neighbourhood_start(c, block),
            neighbourhood_end(c, block),
        ).filter(other_than(c)),
        None => Seq::empty(),
    }
}

/// The ASCII letter `c` in lowercase; any other character as it is.
pub open spec fn ascii_lowercase(c: char) -> char {
    if 'A' <= c <= 'Z' {
        ((c as u32) + 32) as char
    } else {
        c
    }
}

/// The accented forms of a lowercase letter of the Latin alphabet.
pub open spec fn accented_forms(base: char) -> Seq<char> {
    match base {
        'a' => seq!['\u{00E0}', '\u{00E1}', '\u{00E2}', '\u{00E3}', '\u{00E4}', '\u{00E5}', '\u{0101}', '\u{0103}', '\u{0105}'],
        'e' => seq!['\u{00E8}', '\u{00E9}', '\u{00EA}', '\u{00EB}', '\u{0113}', '\u{0117}', '\u{0119}', '\u{011B}'],
        'i' => seq!['\u{00EC}', '\u{00ED}', '\u{00EE}', '\u{00EF}', '\u{012B}', '\u{012F}', '\u{0131}'],
        'o' => seq!['\u{00F2}', '\u{00F3}', '\u{00F4}', '\u{00F5}', '\u{00F6}', '\u{00F8}', '\u{014D}', '\u{0151}'],
        'u' => seq!['\u{00F9}', '\u{00FA}', '\u{00FB}', '\u{00FC}', '\u{016B}', '\u{016F}', '\u{0171}', '\u{0173}'],
        'c' => seq!['\u{00E7}', '\u{0107}', '\u{010D}'],
        'n' => seq!['\u{00F1}', '\u{0144}', '\u{0148}'],
        's' => seq!['\u{015B}', '\u{0161}', '\u{015F}'],
        'z' => seq!['\u{017A}', '\u{017E}', '\u{017C}'],
        _ => Seq::empty(),
    }
}

/// The accented forms of an ASCII letter, whatever its case; none for any other character.
pub open spec fn diacritic_variations(c: char) -> Seq<char> {
    if 'a' <= c <= 'z' || 'A' <= c <= 'Z' {
        accented_forms(ascii_lowercase(c))
    } else {
        Seq::empty()
    }
}

/// A list with those characters of `more` appended that it does not hold
/// yet, in the order of `more`.
pub open spec fn with_new(list: Seq<char>, more: Seq<char>) -> Seq<char>
    decreases more.len(),
{
    if more.len() == 0 {
        list
    } else if with_new(list, more.drop_last()).contains(more.last()) {
        with_new(list, more.drop_last())
    } else {
        with_new(list, more.drop_last()).push(more.last())
    }
}

/// The first `n` elements of a list, or all of it if it is shorter.
pub open spec fn at_most(list: Seq<char>, n: nat) -> Seq<char> {
    if list.len() > n {
        list.take(n as int)
    } else {
        list
    }
}

/// The characters related to `c`: its other case, then its neighbours in
/// the block, then its accented forms, none of the latter two twice; twelve
/// at most.
pub open spec fn related_characters(c: char) -> Seq<char> {
    at_most(
        with_new(with_new(case_variants(c), neighbours(c)), diacritic_variations(c)),
        MAX_RELATED as nat,
    )
}

/// Whether the list holds `c`.
fn holds(list: &Vec<char>, c: char) -> (r: bool)
    ensures
        r == list@.contains(c),
{
    let mut i: usize = 0;
    while i < list.len()
        invariant
            i <= list.len(),
            forall|j: int| 0 <= j < i ==> list@[j] != c,
        decreases list.len() - i,
    {
        if list[i] == c {
            return true;
        }
        i += 1;
    }
    false
}

/// Appends the characters of `more` but `c`.
fn push_others(list: &mut Vec<char>, more: &Vec<char>, c: char)
    ensures
        final(list)@ == old(list)@ + more@.filter(other_than(c)),
{
    let ghost before = list@;
    let ghost pred = other_than(c);
    let mut i: usize = 0;
    proof {
        lemma_filter_empty(pred);
        assert(more@.take(0) =~= Seq::<char>::empty());
    }
    while i < more.len()
        invariant
            i <= more.len(),
            pred == other_than(c),
            list@ == before + more@.take(i as int).filter(pred),
        decreases more.len() - i,
    {
        proof {
            assert(more@.take(i + 1) =~= more@.take(i as int).push(more@[i as int]));
            lemma_filter_push(more@.take(i as int), more@[i as int], pred);
        }
        if more[i] != c {
            list.push(more[i]);
        }
        i += 1;
    }
    proof {
        assert(more@.take(i as int) =~= more@);
    }
}

/// Appends those characters of `more` that the list does not hold yet.
fn push_new(list: &mut Vec<char>, more: &Vec<char>)
    ensures
        final(list)@ == with_new(old(list)@, more@),
{
    let ghost before = list@;
    let mut i: usize = 0;
    while i < more.len()
        invariant
            i <= more.len(),
            list@ == with_new(before, more@.take(i as int)),
        decreases more.len() - i,
    {
        proof {
            assert(more@.take(i + 1).drop_last() =~= more@.take(i as int));
        }
        if !holds(list, more[i]) {
            list.push(more[i]);
        }
        i += 1;
    }
    proof {
        assert(more@.take(i as int) =~= more@);
    }
}

/// The neighbours of `c` in `block`.
fn neighbours_in(c: char, block: UnicodeBlock) -> (r: Vec<char>)
    ensures
        r@ == scalar_range(neighbourhood_start(c, block), neighbourhood_end(c, block)).filter(
            other_than(c),
        ),
{
    let code: u32 = c as u32;
    let below: u32 = if code >= NEIGHBOURS_BELOW {
        code - NEIGHBOURS_BELOW
    } else {
        0
    };
    let start: u32 = if block.start >= below {
        block.start
    } else {
        below
    };
    let end: u32 = if block.end <= code + NEIGHBOURS_ABOVE {
        block.end
    } else {
        code + NEIGHBOURS_ABOVE
    };
    let ghost pred = other_than(c);
    let mut r: Vec<char> = Vec::new();
    let mut cp: u64 = start as u64;
    proof {
        lemma_filter_empty(pred);
    }
    while cp <= end as u64
        invariant
            start <= cp,
            cp <= end + 1 || cp == start,
            pred == other_than(c),
            code == c as u32,
            r@ == scalar_range(start as int, cp - 1).filter(pred),
        decreases end + 1 - cp,
    {
        proof {
            lemma_filter_push(scalar_range(start as int, cp - 1), cp as char, pred);
        }
        if cp as u32 != code {
            if let Some(nearby) = char::from_u32(cp as u32) {
                r.push(nearby);
            }
        }
        cp += 1;
    }
    proof {
        assert(scalar_range(start as int, cp - 1) == scalar_range(start as int, end as int));
    }
    r
}

/// The accented forms of a lowercase letter of the Latin alphabet.
fn accented(base: char) -> (r: Vec<char>)
    ensures
        r@ == accented_forms(base),
{
    let r = match base {
        'a' => vec!['\u{00E0}', '\u{00E1}', '\u{00E2}', '\u{00E3}', '\u{00E4}', '\u{00E5}', '\u{0101}', '\u{0103}', '\u{0105}'],
        'e' => vec!['\u{00E8}', '\u{00E9}', '\u{00EA}', '\u{00EB}', '\u{0113}', '\u{0117}', '\u{0119}', '\u{011B}'],
        'i' => vec!['\u{00EC}', '\u{00ED}', '\u{00EE}', '\u{00EF}', '\u{012B}', '\u{012F}', '\u{0131}'],
        'o' => vec!['\u{00F2}', '\u{00F3}', '\u{00F4}', '\u{00F5}', '\u{00F6}', '\u{00F8}', '\u{014D}', '\u{0151}'],
        'u' => vec!['\u{00F9}', '\u{00FA}', '\u{00FB}', '\u{00FC}', '\u{016B}', '\u{016F}', '\u{0171}', '\u{0173}'],
        'c' => vec!['\u{00E7}', '\u{0107}', '\u{010D}'],
        'n' => vec!['\u{00F1}', '\u{0144}', '\u{0148}'],
        's' => vec!['\u{015B}', '\u{0161}', '\u{015F}'],
        'z' => vec!['\u{017A}', '\u{017E}', '\u{017C}'],
        _ => Vec::new(),
    };
    assert(r@ =~= accented_forms(base));
    r
}

/// The characters related to `ch`.
pub fn get_related_characters(ch: char) -> (r: Vec<char>)
    ensures
        r@ == related_characters(ch),
{
    let mut related: Vec<char> = Vec::new();
    let code: u32 = ch as u32;
    proof {
        lemma_filter_empty(other_than(ch));
    }
    if char_is_lowercase(ch) {
        let upper = char_to_uppercase(ch);
        push_others(&mut related, &upper, ch);
    } else if char_is_uppercase(ch) {
        let lower = char_to_lowercase(ch);
        push_others(&mut related, &lower, ch);
    }
    assert(related@ =~= case_variants(ch));
    if let Some(block) = UnicodeBlock::of(ch) {
        let nearby = neighbours_in(ch, block);
        push_new(&mut related, &nearby);
    }
    assert(related@ == with_new(case_variants(ch), neighbours(ch)));
    let is_upper_ascii = 0x41 <= code && code <= 0x5A;
    let is_lower_ascii = 0x61 <= code && code <= 0x7A;
    if is_upper_ascii || is_lower_ascii {
        let base = if is_upper_ascii {
            match char::from_u32(code + 32) {
                Some(lower) => lower,
                None => ch,
            }
        } else {
            ch
        };
        let variations = accented(base);
        push_new(&mut related, &variations);
    }
    if related.len() > MAX_RELATED {
        related.truncate(MAX_RELATED);
    }
    related
}

/// A font that a character can be shown in.
#[derive(Clone, Copy, Debug, PartialEq, Eq)]
pub enum Font {
    NotoSans,
    NotoSansSymbols,
    NotoSansSymbols2,
    NotoSansMath,
    NotoMusic,
    NotoEmoji,
}

/// Whether a code lies in the ranges that the emoji font is used for.
pub open spec fn in_emoji_ranges(code: u32) -> bool {
    code >= 0x1F300 || 0x2600 <= code <= 0x27BF
}

/// The fonts to show the character with the given code in, in the order
/// in which they are offered.
pub open spec fn fonts_for(code: u32) -> Seq<Font> {
    seq![Font::NotoSans] + (if code >= 0x2000 {
        seq![Font::NotoSansSymbols, Font::NotoSansSymbols2]
    } else {
        Seq::empty()
    }) + (if 0x2200 <= code <= 0x22FF || 0x2100 <= code <= 0x214F {
        seq![Font::NotoSansMath]
    } else {
        Seq::empty()
    }) + (if 0x1D100 <= code <= 0x1D1FF {
        seq![Font::NotoMusic]
    } else {
        Seq::empty()
    }) + (if in_emoji_ranges(code) {
        seq![Font::NotoEmoji]
    } else {
        Seq::empty()
    })
}

/// Whether the emoji font is used for `ch`.
pub fn is_emoji(ch: char) -> (r: bool)
    ensures
        r == in_emoji_ranges(ch as u32),
{
    let code: u32 = ch as u32;
    code >= 0x1F300 || (0x2600 <= code && code <= 0x27BF)
}

/// The fonts to show `ch` in.
pub fn get_font_variations(ch: char) -> (r: Vec<Font>)
    ensures
        r@ == fonts_for(ch as u32),
{
    let code: u32 = ch as u32;
    let mut fonts: Vec<Font> = Vec::new();
    fonts.push(Font::NotoSans);
    if code >= 0x2000 {
        fonts.push(Font::NotoSansSymbols);
        fonts.push(Font::NotoSansSymbols2);
    }
    if (0x2200 <= code && code <= 0x22FF) || (0x2100 <= code && code <= 0x214F) {
        fonts.push(Font::NotoSansMath);
    }
    if 0x1D100 <= code && code <= 0x1D1FF {
        fonts.push(Font::NotoMusic);
    }
    if is_emoji(ch) {
        fonts.push(Font::NotoEmoji);
    }
    assert(fonts@ =~= fonts_for(code));
    fonts
}

} // verus!
