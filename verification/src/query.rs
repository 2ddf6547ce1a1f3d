//! Codepoint notation: `U+0041`, `0x41`, bare hexadecimal and bare decimal numbers.
//!
//! A number is written as std's integer parsing reads it: an optional `+`,
//! then at least one digit, and the value has to fit in 32 bits.

use crate::blocks::{unicode_block_of, UnicodeBlock};
use crate::index::{has_key, CharacterIndex, Entry};
use crate::text::{
    char_is_alphabetic, is_alphabetic, is_scalar_value, lowercase, lowercase_of, to_chars, trim,
    trimmed,
};
use vstd::prelude::*;

verus! {

/// The value of `c` as a digit in `radix`, if it is one: `0-9`, then `a-z` or `A-Z` from ten on.
pub open spec fn digit_of(c: char, radix: int) -> Option<int> {
    let v: int = if '0' <= c <= '9' {
        c as int - 0x30
    } else if 'a' <= c <= 'z' {
        c as int - 0x61 + 10
    } else if 'A' <= c <= 'Z' {
        c as int - 0x41 + 10
    } else {
        radix
    };
    if v < radix {
        Some(v)
    } else {
        None
    }
}

/// The value of a run of digits, most significant first; `None` where a
/// character is no digit. The empty run has the value 0.
pub open spec fn digits_value(s: Seq<char>, radix: int) -> Option<int>
    decreases s.len(),
{
    if s.len() == 0 {
        Some(0)
    } else {
        let init = digits_value(s.drop_last(), radix);
        let last = digit_of(s.last(), radix);
        if init is Some && last is Some {
            Some(init->0 * radix + last->0)
        } else {
            None
        }
    }
}

/// The digits of a written number: what follows an optional leading `+`.
pub open spec fn unsigned_part(s: Seq<char>) -> Seq<char> {
    if s.len() > 0 && s[0] == '+' {
        s.skip(1)
    } else {
        s
    }
}

/// The 32-bit number that `s` writes in `radix`, if it writes one.
pub open spec fn parse_number(s: Seq<char>, radix: int) -> Option<u32> {
    let digits = unsigned_part(s);
    let value = digits_value(digits, radix);
    if digits.len() > 0 && value is Some && value->0 <= u32::MAX {
        Some(value->0 as u32)
    } else {
        None
    }
}

/// The character with the given code, if the code is a scalar value.
pub open spec fn code_to_char(code: u32) -> Option<char> {
    if is_scalar_value(code as int) {
        Some(code as char)
    } else {
        None
    }
}

/// Whether `s` begins with the two characters `a`, `b`.
pub open spec fn starts_with_pair(s: Seq<char>, a: char, b: char) -> bool {
    s.len() >= 2 && s[0] == a && s[1] == b
}

/// Whether every character of `s` is a hexadecimal digit.
pub open spec fn all_hex_digits(s: Seq<char>) -> bool {
    forall|i: int| 0 <= i < s.len() ==> digit_of(#[trigger] s[i], 16) is Some
}

/// The character that a trimmed, lowercased query names in hexadecimal:
/// `u+<hex>`, `0x<hex>`, or at most six bare hexadecimal digits.
pub open spec fn hex_code(cleaned: Seq<char>) -> Option<char> {
    if starts_with_pair(cleaned, 'u', '+') && parse_number(cleaned.skip(2), 16) is Some {
        code_to_char(parse_number(cleaned.skip(2), 16)->0)
    } else if starts_with_pair(cleaned, '0', 'x') && parse_number(cleaned.skip(2), 16) is Some {
        code_to_char(parse_number(cleaned.skip(2), 16)->0)
    } else if all_hex_digits(cleaned) && cleaned.len() <= 6 && parse_number(cleaned, 16) is Some {
        code_to_char(parse_number(cleaned, 16)->0)
    } else {
        None
    }
}

/// The character that a query names as a bare decimal number.
pub open spec fn decimal_code(cleaned: Seq<char>) -> Option<char> {
    if parse_number(cleaned, 10) is Some {
        code_to_char(parse_number(cleaned, 10)->0)
    } else {
        None
    }
}

/// A run of digits has a value of at least 0.
pub proof fn lemma_digits_value_nonnegative(s: Seq<char>, radix: int)
    requires
        1 <= radix,
    ensures
        digits_value(s, radix) is Some ==> digits_value(s, radix)->0 >= 0,
    decreases s.len(),
{
    if s.len() > 0 {
        lemma_digits_value_nonnegative(s.drop_last(), radix);
        if digits_value(s, radix) is Some {
            let v = digits_value(s.drop_last(), radix)->0;
            assert(v * radix >= 0) by (nonlinear_arith)
                requires
                    v >= 0,
                    radix >= 1,
            ;
        }
    }
}

/// Reading on never lowers the value: where the first `n` digits already
/// have the value `v`, the whole run has a value of at least `v`, or none.
pub proof fn lemma_digits_value_grows(s: Seq<char>, n: int, radix: int)
    requires
        1 <= radix,
        0 <= n <= s.len(),
        digits_value(s.take(n), radix) is Some,
    ensures
        digits_value(s, radix) is Some ==> digits_value(s, radix)->0 >= digits_value(
            s.take(n),
            radix,
        )->0,
    decreases s.len() - n,
{
    if n == s.len() {
        assert(s.take(n) =~= s);
    } else {
        let init = s.drop_last();
        assert(init.take(n) =~= s.take(n));
        if digits_value(s, radix) is Some {
            lemma_digits_value_grows(init, n, radix);
            lemma_digits_value_nonnegative(init, radix);
            let v = digits_value(init, radix)->0;
            assert(v * radix >= v) by (nonlinear_arith)
                requires
                    v >= 0,
                    radix >= 1,
            ;
        }
    }
}

/// The value of one character as a digit in `radix`.
pub fn digit_value(c: char, radix: u32) -> (r: Option<u32>)
    requires
        radix <= 36,
    ensures
        match r {
            Some(d) => digit_of(c, radix as int) == Some(d as int) && d < radix,
            None => digit_of(c, radix as int) is None,
        },
{
    let code: u32 = c as u32;
    let v: u32 = if 0x30 <= code && code <= 0x39 {
        code - 0x30
    } else if 0x61 <= code && code <= 0x7A {
        code - 0x61 + 10
    } else if 0x41 <= code && code <= 0x5A {
        code - 0x41 + 10
    } else {
        radix
    };
    if v < radix {
        Some(v)
    } else {
        None
    }
}

/// Reads a 32-bit number written in `radix`.
pub fn parse_u32(s: &str, radix: u32) -> (r: Option<u32>)
    requires
        2 <= radix <= 36,
    ensures
        r == parse_number(s@, radix as int),
{
    let chars = to_chars(s);
    let start: usize = if chars.len() > 0 && chars[0] == '+' {
        1
    } else {
        0
    };
    let ghost digits = unsigned_part(s@);
    assert(digits =~= chars@.skip(start as int));
    if start == chars.len() {
        return None;
    }
    let mut acc: u64 = 0;
    let mut i: usize = start;
    while i < chars.len()
        invariant
            2 <= radix <= 36,
            start <= i <= chars.len(),
            digits == chars@.skip(start as int),
            digits == unsigned_part(s@),
            digits_value(digits.take(i - start), radix as int) == Some(acc as int),
            acc <= u32::MAX,
        decreases chars.len() - i,
    {
        let ghost k = i - start;
        proof {
            assert(digits.take(k + 1).drop_last() =~= digits.take(k));
            assert(digits.take(k + 1).last() == chars@[i as int]);
        }
        match digit_value(chars[i], radix) {
            None => {
                proof {
                    assert(digits_value(digits.take(k + 1), radix as int) is None);
                    lemma_prefix_without_value(digits, k + 1, radix as int);
                }
                return None;
            },
            Some(d) => {
                assert(acc * radix + d <= 0xFFFF_FFFF * 36 + 36) by (nonlinear_arith)
                    requires
                        acc <= 0xFFFF_FFFF,
                        radix <= 36,
                        d < radix,
                ;
                let next: u64 = acc * (radix as u64) + (d as u64);
                if next > 0xFFFF_FFFF {
                    proof {
                        assert(digits_value(digits.take(k + 1), radix as int) == Some(
                            next as int,
                        ));
                        lemma_digits_value_grows(digits, k + 1, radix as int);
                    }
                    return None;
                }
                acc = next;
            },
        }
        i += 1;
    }
    proof {
        assert(digits.take(i - start) =~= digits);
    }
    Some(acc as u32)
}

/// Where a prefix of a run has no value, the run has none.
pub proof fn lemma_prefix_without_value(s: Seq<char>, n: int, radix: int)
    requires
        0 <= n <= s.len(),
        digits_value(s.take(n), radix) is None,
    ensures
        digits_value(s, radix) is None,
    decreases s.len() - n,
{
    if n == s.len() {
        assert(s.take(n) =~= s);
    } else {
        let init = s.drop_last();
        assert(init.take(n) =~= s.take(n));
        lemma_prefix_without_value(init, n, radix);
    }
}

/// The character with the given code, if there is one.
pub fn char_from_code(code: u32) -> (r: Option<char>)
    ensures
        r == code_to_char(code),
{
    char::from_u32(code)
}

/// Whether every character is a hexadecimal digit.
fn is_all_hex(chars: &Vec<char>) -> (r: bool)
    ensures
        r == all_hex_digits(chars@),
{
    let mut i: usize = 0;
    while i < chars.len()
        invariant
            i <= chars.len(),
            forall|j: int| 0 <= j < i ==> digit_of(#[trigger] chars@[j], 16) is Some,
        decreases chars.len() - i,
    {
        if digit_value(chars[i], 16).is_none() {
            return false;
        }
        i += 1;
    }
    true
}

/// Reads a trimmed, lowercased query as hexadecimal codepoint notation.
pub fn parse_hex_notation(cleaned: &str) -> (r: Option<char>)
    ensures
        r == hex_code(cleaned@),
{
    let chars = to_chars(cleaned);
    if chars.len() >= 2 && ((chars[0] == 'u' && chars[1] == '+') || (chars[0] == '0' && chars[1]
        == 'x')) {
        let rest = crate::text::from_chars(&skip_two(&chars));
        if let Some(code) = parse_u32(rest.as_str(), 16) {
            return char_from_code(code);
        }
    }
    if is_all_hex(&chars) && chars.len() <= 6 {
        if let Some(code) = parse_u32(cleaned, 16) {
            return char_from_code(code);
        }
    }
    None
}

/// The characters after the first two.
fn skip_two(chars: &Vec<char>) -> (r: Vec<char>)
    requires
        chars.len() >= 2,
    ensures
        r@ == chars@.skip(2),
{
    let mut r: Vec<char> = Vec::new();
    let mut i: usize = 2;
    while i < chars.len()
        invariant
            2 <= i <= chars.len(),
            r@ == chars@.subrange(2, i as int),
        decreases chars.len() - i,
    {
        r.push(chars[i]);
        i += 1;
    }
    assert(chars@.subrange(2, i as int) =~= chars@.skip(2));
    r
}

/// Reads a query as a bare decimal codepoint.
pub fn parse_decimal_notation(cleaned: &str) -> (r: Option<char>)
    ensures
        r == decimal_code(cleaned@),
{
    match parse_u32(cleaned, 10) {
        Some(code) => char_from_code(code),
        None => None,
    }
}

/// What a query asks for.
#[derive(Clone, Copy, Debug, PartialEq, Eq)]
pub enum QueryKind {
    /// The query is one character, and the table has it.
    LiteralChar(char),
    /// The query is one character that the table lacks; the table has
    /// characters of its block, which stand in for it.
    Block(UnicodeBlock),
    /// The query writes the code of a character that the table has.
    CodepointNotation(char),
    /// Anything else: text to look for.
    FreeText,
}

/// Whether the table has a character of the block.
pub open spec fn has_member_in(table: Seq<Entry>, block: UnicodeBlock) -> bool {
    exists|i: int| 0 <= i < table.len() && block.holds((#[trigger] table[i]).0)
}

/// How a query that is not read as a single character is read: as the code
/// of a character of the table, in hexadecimal before decimal, or as text.
pub open spec fn classify_notation(text: Seq<char>, table: Seq<Entry>) -> QueryKind {
    let cleaned = lowercase_of(trimmed(text));
    let hex = hex_code(cleaned);
    let decimal = decimal_code(cleaned);
    if hex is Some && has_key(table, hex->0) {
        QueryKind::CodepointNotation(hex->0)
    } else if decimal is Some && has_key(table, decimal->0) {
        QueryKind::CodepointNotation(decimal->0)
    } else {
        QueryKind::FreeText
    }
}

/// How a query is read against a table. A single alphabetic character is
/// text, so that letters are looked for with and without regard to case.
/// Any other single character names itself if the table has it, else its
/// block if the table has characters of that block. What is left is read as
/// codepoint notation, and as text where that fails.
pub open spec fn classify(text: Seq<char>, table: Seq<Entry>) -> QueryKind {
    if text.len() == 1 && is_alphabetic(text[0]) {
        QueryKind::FreeText
    } else if text.len() == 1 && has_key(table, text[0]) {
        QueryKind::LiteralChar(text[0])
    } else if text.len() == 1 && unicode_block_of(text[0]) is Some && has_member_in(
        table,
        unicode_block_of(text[0])->0,
    ) {
        QueryKind::Block(unicode_block_of(text[0])->0)
    } else {
        classify_notation(text, table)
    }
}

/// Whether the index has a character of the block.
pub fn any_in_block(index: &CharacterIndex, block: UnicodeBlock) -> (r: bool)
    ensures
        r == has_member_in(index@, block),
{
    let records = index.all();
    let mut i: usize = 0;
    while i < records.len()
        invariant
            i <= records.len(),
            crate::index::entries(records@) == index@,
            forall|j: int| 0 <= j < i ==> !block.holds((#[trigger] index@[j]).0),
        decreases records.len() - i,
    {
        let code: u32 = records[i].codepoint as u32;
        if block.start <= code && code <= block.end {
            assert(block.holds(index@[i as int].0));
            return true;
        }
        i += 1;
    }
    false
}

/// Reads a cleaned query (trimmed and lowercased) as the code of a character of the index.
pub fn classify_cleaned(cleaned: &str, index: &CharacterIndex) -> (r: QueryKind)
    ensures
        r == (if hex_code(cleaned@) is Some && has_key(index@, hex_code(cleaned@)->0) {
            QueryKind::CodepointNotation(hex_code(cleaned@)->0)
        } else if decimal_code(cleaned@) is Some && has_key(index@, decimal_code(cleaned@)->0) {
            QueryKind::CodepointNotation(decimal_code(cleaned@)->0)
        } else {
            QueryKind::FreeText
        }),
{
    if let Some(c) = parse_hex_notation(cleaned) {
        if index.contains_key(&c) {
            return QueryKind::CodepointNotation(c);
        }
    }
    if let Some(c) = parse_decimal_notation(cleaned) {
        if index.contains_key(&c) {
            return QueryKind::CodepointNotation(c);
        }
    }
    QueryKind::FreeText
}

/// Reads a query against an index.
pub fn classify_query(text: &str, index: &CharacterIndex) -> (r: QueryKind)
    ensures
        r == classify(text@, index@),
{
    let chars = to_chars(text);
    if chars.len() == 1 {
        let c = chars[0];
        if char_is_alphabetic(c) {
            return QueryKind::FreeText;
        }
        if index.contains_key(&c) {
            return QueryKind::LiteralChar(c);
        }
        if let Some(block) = UnicodeBlock::of(c) {
            if any_in_block(index, block) {
                return QueryKind::Block(block);
            }
        }
    }
    let cleaned = lowercase(trim(text).as_str());
    classify_cleaned(cleaned.as_str(), index)
}

} // verus!
