//! Strings and characters as sequences, and the std operations the engine relies on.
//!
//! A string is modelled by its sequence of characters. Operations whose result
//! is fixed by the Unicode tables (lowercasing, the whitespace and alphabetic
//! properties) are named here by spec functions without a body; every other
//! contract in the crate speaks of them by these names. Trimming and the
//! splitting into words are defined over the whitespace property.

use vstd::prelude::*;

verus! {

/// Whether `i` is a Unicode scalar value: a code point that is no surrogate.
pub open spec fn is_scalar_value(i: int) -> bool {
    0 <= i <= 0xD7FF || 0xE000 <= i <= 0x10FFFF
}

/// Whether `needle` occurs in `hay` as a contiguous run of characters.
pub open spec fn is_substring(needle: Seq<char>, hay: Seq<char>) -> bool {
    exists|i: int|
        0 <= i && i + needle.len() <= hay.len() && #[trigger] hay.subrange(
            i,
            i + needle.len(),
        ) == needle
}

/// The character sequences of a sequence of strings.
pub open spec fn strings(v: Seq<String>) -> Seq<Seq<char>> {
    v.map_values(|s: String| s@)
}

/// The one-character string made of `c`.
pub open spec fn singleton(c: char) -> Seq<char> {
    seq![c]
}

/// The lowercase form of a string, as `str::to_lowercase` gives it.
pub uninterp spec fn lowercase_of(s: Seq<char>) -> Seq<char>;

/// The Unicode `White_Space` property, as `char::is_whitespace` reports it.
pub uninterp spec fn is_whitespace(c: char) -> bool;

/// A string without the whitespace it begins with.
pub open spec fn without_leading_whitespace(s: Seq<char>) -> Seq<char>
    decreases s.len(),
{
    if s.len() > 0 && is_whitespace(s[0]) {
        without_leading_whitespace(s.skip(1))
    } else {
        s
    }
}

/// A string without the whitespace it ends with.
pub open spec fn without_trailing_whitespace(s: Seq<char>) -> Seq<char>
    decreases s.len(),
{
    if s.len() > 0 && is_whitespace(s.last()) {
        without_trailing_whitespace(s.drop_last())
    } else {
        s
    }
}

/// A string without its leading and trailing whitespace.
pub open spec fn trimmed(s: Seq<char>) -> Seq<char> {
    without_trailing_whitespace(without_leading_whitespace(s))
}

/// What reading a string from the left has found: the words that have
/// ended, and the characters of a word that has begun and not ended yet.
pub open spec fn words_read(s: Seq<char>) -> (Seq<Seq<char>>, Seq<char>)
    decreases s.len(),
{
    if s.len() == 0 {
        (Seq::empty(), Seq::empty())
    } else {
        let (ended, begun) = words_read(s.drop_last());
        if !is_whitespace(s.last()) {
            (ended, begun.push(s.last()))
        } else if begun.len() > 0 {
            (ended.push(begun), Seq::empty())
        } else {
            (ended, begun)
        }
    }
}

/// The words of a string: its longest runs of characters that are no
/// whitespace, in order. No word is empty.
pub open spec fn whitespace_words(s: Seq<char>) -> Seq<Seq<char>> {
    let (ended, begun) = words_read(s);
    if begun.len() > 0 {
        ended.push(begun)
    } else {
        ended
    }
}

/// The Unicode `Alphabetic` property, as `char::is_alphabetic` reports it.
pub uninterp spec fn is_alphabetic(c: char) -> bool;

/// The Unicode `Uppercase` property, as `char::is_uppercase` reports it.
pub uninterp spec fn is_uppercase(c: char) -> bool;

/// `char::from_u32` succeeds exactly on scalar values, and then keeps the number.
pub assume_specification[ char::from_u32 ](i: u32) -> (r: Option<char>)
    ensures
        is_scalar_value(i as int) ==> r == Some(i as char),
        !is_scalar_value(i as int) ==> r is None,
;

/// `String::push` appends one character to the end.
pub assume_specification[ String::push ](s: &mut String, c: char)
    ensures
        final(s)@ == old(s)@.push(c),
;

/// `str::to_lowercase`: the result is the lowercase form of the argument.
#[verifier::external_body]
pub(crate) fn lowercase(s: &str) -> (r: String)
    ensures
        r@ == lowercase_of(s@),
{
    s.to_lowercase()
}

/// Whether `needle` stands in `hay` at position `at`.
fn occurs_at(hay: &Vec<char>, needle: &Vec<char>, at: usize) -> (r: bool)
    requires
        at + needle.len() <= hay.len(),
    ensures
        r == (hay@.subrange(at as int, at + needle.len()) == needle@),
{
    let mut j: usize = 0;
    while j < needle.len()
        invariant
            j <= needle.len(),
            at + needle.len() <= hay.len(),
            forall|k: int| 0 <= k < j ==> hay@[at + k] == needle@[k],
        decreases needle.len() - j,
    {
        if hay[at + j] != needle[j] {
            assert(hay@.subrange(at as int, at + needle.len())[j as int] != needle@[j as int]);
            return false;
        }
        j += 1;
    }
    assert(hay@.subrange(at as int, at + needle.len()) =~= needle@);
    true
}

/// Whether `needle` occurs in `hay`.
pub fn contains_str(hay: &str, needle: &str) -> (r: bool)
    ensures
        r == is_substring(needle@, hay@),
{
    let hay_chars = to_chars(hay);
    let needle_chars = to_chars(needle);
    if needle_chars.len() > hay_chars.len() {
        return false;
    }
    if needle_chars.len() == 0 {
        assert(needle@.len() == 0);
        assert(hay@.subrange(0int, 0int + needle@.len()) =~= needle@);
        return true;
    }
    let last: usize = hay_chars.len() - needle_chars.len();
    let mut i: usize = 0;
    while i <= last
        invariant
            i <= last + 1,
            needle_chars.len() > 0,
            last + needle_chars.len() == hay_chars.len(),
            hay_chars@ == hay@,
            needle_chars@ == needle@,
            forall|k: int|
                0 <= k < i ==> #[trigger] hay@.subrange(k, k + needle@.len()) != needle@,
        decreases last + 1 - i,
    {
        if occurs_at(&hay_chars, &needle_chars, i) {
            return true;
        }
        i += 1;
    }
    false
}

/// Whether `hay` begins with `prefix`.
pub fn starts_with_str(hay: &str, prefix: &str) -> (r: bool)
    ensures
        r == prefix@.is_prefix_of(hay@),
{
    let hay_chars = to_chars(hay);
    let prefix_chars = to_chars(prefix);
    prefix_chars.len() <= hay_chars.len() && occurs_at(&hay_chars, &prefix_chars, 0)
}

/// The string that holds `c` and nothing else.
pub fn char_to_string(c: char) -> (r: String)
    ensures
        r@ == singleton(c),
{
    let mut r = String::new();
    r.push(c);
    assert(r@ =~= singleton(c));
    r
}

/// `char::is_whitespace`.
#[verifier::external_body]
pub(crate) fn char_is_whitespace(c: char) -> (r: bool)
    ensures
        r == is_whitespace(c),
{
    c.is_whitespace()
}

/// `char::is_alphabetic`.
#[verifier::external_body]
pub(crate) fn char_is_alphabetic(c: char) -> (r: bool)
    ensures
        r == is_alphabetic(c),
{
    c.is_alphabetic()
}

/// `char::is_uppercase`.
#[verifier::external_body]
pub(crate) fn char_is_uppercase(c: char) -> (r: bool)
    ensures
        r == is_uppercase(c),
{
    c.is_uppercase()
}

/// The characters of `s`, in order.
pub fn to_chars(s: &str) -> (v: Vec<char>)
    ensures
        v@ == s@,
{
    let mut v: Vec<char> = Vec::new();
    for c in it: s.chars()
        invariant
            v.len() == it.index(),
            it.seq() == s@,
            forall|j: int| 0 <= j < v.len() ==> v@[j] == it.seq()[j],
    {
        v.push(c);
    }
    assert(v@ =~= s@);
    v
}

/// A string without its leading and trailing whitespace.
pub fn trim(s: &str) -> (r: String)
    ensures
        r@ == trimmed(s@),
{
    let chars = to_chars(s);
    let mut start: usize = 0;
    assert(chars@.skip(0) =~= chars@);
    while start < chars.len() && char_is_whitespace(chars[start])
        invariant
            start <= chars.len(),
            without_leading_whitespace(chars@) == without_leading_whitespace(
                chars@.skip(start as int),
            ),
        decreases chars.len() - start,
    {
        assert(chars@.skip(start as int).skip(1) =~= chars@.skip(start + 1));
        start += 1;
    }
    let ghost rest = chars@.skip(start as int);
    assert(without_leading_whitespace(chars@) == rest);
    let mut end: usize = chars.len();
    assert(chars@.subrange(start as int, end as int) =~= rest);
    while end > start && char_is_whitespace(chars[end - 1])
        invariant
            start <= end <= chars.len(),
            without_trailing_whitespace(rest) == without_trailing_whitespace(
                chars@.subrange(start as int, end as int),
            ),
        decreases end,
    {
        assert(chars@.subrange(start as int, end as int).drop_last() =~= chars@.subrange(
            start as int,
            end - 1,
        ));
        end -= 1;
    }
    let ghost kept = chars@.subrange(start as int, end as int);
    assert(without_trailing_whitespace(rest) == kept);
    let mut r = String::new();
    let mut i: usize = start;
    while i < end
        invariant
            start <= i <= end <= chars.len(),
            r@ == chars@.subrange(start as int, i as int),
        decreases end - i,
    {
        r.push(chars[i]);
        assert(chars@.subrange(start as int, i + 1) =~= chars@.subrange(start as int, i as int).push(
            chars@[i as int],
        ));
        i += 1;
    }
    r
}

/// The words of a string, as strings.
pub fn split_words(s: &str) -> (r: Vec<String>)
    ensures
        strings(r@) == whitespace_words(s@),
{
    let chars = to_chars(s);
    let mut words: Vec<String> = Vec::new();
    let mut word = String::new();
    let mut i: usize = 0;
    assert(strings(words@) =~= Seq::<Seq<char>>::empty());
    while i < chars.len()
        invariant
            i <= chars.len(),
            (strings(words@), word@) == words_read(chars@.take(i as int)),
        decreases chars.len() - i,
    {
        assert(chars@.take(i + 1).drop_last() =~= chars@.take(i as int));
        if !char_is_whitespace(chars[i]) {
            word.push(chars[i]);
        } else if !word.as_str().is_empty() {
            let ghost ended = strings(words@);
            words.push(word);
            assert(strings(words@) =~= ended.push(words@.last()@));
            word = String::new();
        }
        i += 1;
    }
    assert(chars@.take(i as int) =~= chars@);
    if !word.as_str().is_empty() {
        let ghost ended = strings(words@);
        words.push(word);
        assert(strings(words@) =~= ended.push(words@.last()@));
    }
    words
}

/// The string whose characters are those of `v`, in order.
pub fn from_chars(v: &Vec<char>) -> (s: String)
    ensures
        s@ == v@,
{
    let mut s = String::new();
    let mut i: usize = 0;
    while i < v.len()
        invariant
            i <= v.len(),
            s@ == v@.take(i as int),
        decreases v.len() - i,
    {
        s.push(v[i]);
        i += 1;
    }
    s
}

} // verus!
