//! Blocks: closed intervals of codepoints, and the block a character belongs to.

use crate::text::is_scalar_value;
use vstd::prelude::*;

verus! {

/// A closed interval `[start, end]` of codepoints.
#[derive(Clone, Copy, Debug, PartialEq, Eq)]
pub struct UnicodeBlock {
    pub start: u32,
    pub end: u32,
}

/// The scalar values from `lo` to `hi`, both included, in ascending order.
pub open spec fn scalar_range(lo: int, hi: int) -> Seq<char>
    decreases hi - lo + 1,
{
    if hi < lo {
        Seq::empty()
    } else if is_scalar_value(hi) {
        scalar_range(lo, hi - 1).push(hi as char)
    } else {
        scalar_range(lo, hi - 1)
    }
}

/// A range lists exactly the characters whose code lies in it.
pub proof fn lemma_scalar_range_contains(lo: int, hi: int, c: char)
    ensures
        scalar_range(lo, hi).contains(c) <==> lo <= c as int <= hi,
    decreases hi - lo + 1,
{
    if hi < lo {
        assert(scalar_range(lo, hi) =~= Seq::<char>::empty());
    } else {
        lemma_scalar_range_contains(lo, hi - 1, c);
        let init = scalar_range(lo, hi - 1);
        if is_scalar_value(hi) {
            let s = init.push(hi as char);
            if init.contains(c) {
                let i = choose|i: int| 0 <= i < init.len() && init[i] == c;
                assert(s[i] == c);
            }
            if c as int == hi {
                assert(s[init.len() as int] == c);
            }
            if s.contains(c) {
                let i = choose|i: int| 0 <= i < s.len() && s[i] == c;
                if i < init.len() {
                    assert(init[i] == c);
                }
            }
        }
    }
}

/// The block that holds `c`, as `unicode_blocks::find_unicode_block` reports it.
pub uninterp spec fn unicode_block_of(c: char) -> Option<UnicodeBlock>;

/// Calls `unicode_blocks::find_unicode_block` and keeps the bounds of the
/// block it returns. The function matches `c` against the ranges of the
/// Unicode block table, so a block that it returns holds `c`.
#[verifier::external_body]
pub(crate) fn find_unicode_block(c: char) -> (r: Option<UnicodeBlock>)
    ensures
        r == unicode_block_of(c),
        r matches Some(block) ==> block.holds(c),
{
    match unicode_blocks::find_unicode_block(c) {
        Some(block) => Some(UnicodeBlock { start: block.start(), end: block.end() }),
        None => None,
    }
}

impl UnicodeBlock {
    /// Whether the code of `c` lies in the interval.
    pub open spec fn holds(&self, c: char) -> bool {
        self.start <= c as u32 <= self.end
    }

    /// The characters of the block, ascending.
    pub open spec fn spec_characters(&self) -> Seq<char> {
        scalar_range(self.start as int, self.end as int)
    }

    /// The block `[start, end]`.
    pub fn new(start: u32, end: u32) -> (r: Self)
        ensures
            r.start == start,
            r.end == end,
    {
        UnicodeBlock { start, end }
    }

    /// The block that holds `c` in the Unicode block table, if any.
    pub fn of(c: char) -> (r: Option<Self>)
        ensures
            r == unicode_block_of(c),
            r matches Some(block) ==> block.holds(c),
    {
        find_unicode_block(c)
    }

    /// The first codepoint of the block.
    pub fn start(&self) -> (r: u32)
        ensures
            r == self.start,
    {
        self.start
    }

    /// The last codepoint of the block.
    pub fn end(&self) -> (r: u32)
        ensures
            r == self.end,
    {
        self.end
    }
}

} // verus!
