//! Categories: named classifiers over characters.
//!
//! A classifier answers whether a character belongs to it and lists its
//! characters. There are blocks, unions of blocks, explicit collections, and
//! categories defined by a property of the character.

use crate::blocks::{lemma_scalar_range_contains, scalar_range, UnicodeBlock};
use crate::properties::PropertyType;
use crate::seqs::{lemma_filter_empty, lemma_filter_push};
use vstd::prelude::*;

verus! {

/// A membership test over characters, with an enumeration of the members.
pub trait CharacterInspector {
    /// Whether `c` is a member.
    spec fn spec_contains(&self, c: char) -> bool;

    /// Whether `s` is an enumeration that `characters` may return.
    spec fn enumerates(&self, s: Seq<char>) -> bool;

    /// The members; it can be called again and again.
    fn characters(&self) -> (r: Vec<char>)
        ensures
            self.enumerates(r@),
    ;

    /// Whether `c` is a member.
    fn contains(&self, c: char) -> (r: bool)
        ensures
            r == self.spec_contains(c),
    ;
}

impl CharacterInspector for UnicodeBlock {
    open spec fn spec_contains(&self, c: char) -> bool {
        self.holds(c)
    }

    open spec fn enumerates(&self, s: Seq<char>) -> bool {
        s == self.spec_characters()
    }

    /// Every character of the block, ascending; surrogate codes are passed over.
    fn characters(&self) -> (r: Vec<char>) {
        let mut chars: Vec<char> = Vec::new();
        let mut code: u64 = self.start as u64;
        let end: u64 = self.end as u64;
        while code <= end
            invariant
                self.start <= code,
                code <= end + 1 || code == self.start,
                end == self.end,
                chars@ == scalar_range(self.start as int, code - 1),
            decreases end + 1 - code,
        {
            if let Some(c) = char::from_u32(code as u32) {
                chars.push(c);
            }
            code += 1;
        }
        chars
    }

    fn contains(&self, c: char) -> (r: bool) {
        let code: u32 = c as u32;
        code >= self.start && code <= self.end
    }
}

/// The characters of a list of blocks: those of each block in turn.
/// A character of two overlapping blocks is listed twice.
pub open spec fn union_characters(blocks: Seq<UnicodeBlock>) -> Seq<char>
    decreases blocks.len(),
{
    if blocks.len() == 0 {
        Seq::empty()
    } else {
        union_characters(blocks.drop_last()) + blocks.last().spec_characters()
    }
}

/// Whether one of the blocks holds `c`.
pub open spec fn union_contains(blocks: Seq<UnicodeBlock>, c: char) -> bool {
    exists|i: int| 0 <= i < blocks.len() && (#[trigger] blocks[i]).holds(c)
}

/// An ordered list of blocks.
pub struct UnicodeMultiBlock(pub Vec<UnicodeBlock>);

impl CharacterInspector for UnicodeMultiBlock {
    open spec fn spec_contains(&self, c: char) -> bool {
        union_contains(self.0@, c)
    }

    open spec fn enumerates(&self, s: Seq<char>) -> bool {
        s == union_characters(self.0@)
    }

    fn characters(&self) -> (r: Vec<char>) {
        let mut chars: Vec<char> = Vec::new();
        let mut i: usize = 0;
        while i < self.0.len()
            invariant
                i <= self.0.len(),
                chars@ == union_characters(self.0@.take(i as int)),
            decreases self.0.len() - i,
        {
            let mut block_chars = self.0[i].characters();
            proof {
                assert(self.0@.take(i + 1).drop_last() =~= self.0@.take(i as int));
            }
            chars.append(&mut block_chars);
            i += 1;
        }
        proof {
            assert(self.0@.take(i as int) =~= self.0@);
        }
        chars
    }

    fn contains(&self, c: char) -> (r: bool) {
        let mut i: usize = 0;
        while i < self.0.len()
            invariant
                i <= self.0.len(),
                forall|j: int| 0 <= j < i ==> !(#[trigger] self.0@[j]).holds(c),
            decreases self.0.len() - i,
        {
            if self.0[i].contains(c) {
                return true;
            }
            i += 1;
        }
        false
    }
}

/// `ahash::RandomState`, the hasher that the sets below are built with. Nothing is said of it.
#[verifier::external_type_specification]
#[verifier::external_body]
pub struct ExRandomState(ahash::RandomState);

/// `ahash::AHashSet`, a hash set of the standard library with that hasher.
/// What a set of characters holds is spoken of through `set_contents`, and
/// only the functions below reach into one.
#[verifier::external_type_specification]
#[verifier::external_body]
#[verifier::reject_recursive_types(T)]
#[verifier::reject_recursive_types(S)]
pub struct ExAHashSet<T, S>(ahash::AHashSet<T, S>);

/// The characters that a hash set holds.
pub uninterp spec fn set_contents(set: ahash::AHashSet<char>) -> Set<char>;

/// `AHashSet::new`: a set that holds nothing.
#[verifier::external_body]
fn set_new() -> (r: ahash::AHashSet<char>)
    ensures
        set_contents(r) == Set::<char>::empty(),
{
    ahash::AHashSet::new()
}

/// `HashSet::contains`, reached through the set's `Deref`: whether the set holds `c`.
#[verifier::external_body]
fn set_contains(set: &ahash::AHashSet<char>, c: char) -> (r: bool)
    ensures
        r == set_contents(*set).contains(c),
{
    set.contains(&c)
}

/// `HashSet::insert`: the set holds `c` afterwards; the result tells whether it is new.
#[verifier::external_body]
fn set_insert(set: &mut ahash::AHashSet<char>, c: char) -> (r: bool)
    ensures
        set_contents(*final(set)) == set_contents(*old(set)).insert(c),
        r == !set_contents(*old(set)).contains(c),
{
    set.insert(c)
}

/// `HashSet::remove`: the set no longer holds `c`; the result tells whether it did.
#[verifier::external_body]
fn set_remove(set: &mut ahash::AHashSet<char>, c: char) -> (r: bool)
    ensures
        set_contents(*final(set)) == set_contents(*old(set)).remove(c),
        r == set_contents(*old(set)).contains(c),
{
    set.remove(&c)
}

/// `HashSet::iter`, each item copied out: every member once, in an order
/// that the set does not promise.
#[verifier::external_body]
fn set_items(set: &ahash::AHashSet<char>) -> (r: Vec<char>)
    ensures
        r@.to_set() == set_contents(*set),
        r@.no_duplicates(),
{
    set.iter().copied().collect()
}

/// An explicit set of characters, in no particular order.
pub struct UnicodeCollection(pub ahash::AHashSet<char>);

impl UnicodeCollection {
    /// The members, as a set.
    pub open spec fn members(&self) -> Set<char> {
        set_contents(self.0)
    }

    /// The empty collection.
    pub fn new() -> (r: Self)
        ensures
            r.members() == Set::<char>::empty(),
    {
        UnicodeCollection(set_new())
    }

    /// The collection of the given characters.
    pub fn from_chars(chars: &Vec<char>) -> (r: Self)
        ensures
            r.members() == chars@.to_set(),
    {
        let mut set = set_new();
        let mut i: usize = 0;
        while i < chars.len()
            invariant
                i <= chars.len(),
                set_contents(set) == chars@.take(i as int).to_set(),
            decreases chars.len() - i,
        {
            set_insert(&mut set, chars[i]);
            proof {
                let before = chars@.take(i as int);
                let after = chars@.take(i + 1);
                assert(after =~= before.push(chars@[i as int]));
                assert(after.to_set() =~= before.to_set().insert(chars@[i as int])) by {
                    assert forall|c: char| after.to_set().contains(c) == before.to_set().insert(
                        chars@[i as int],
                    ).contains(c) by {
                        if before.contains(c) {
                            let k = choose|k: int| 0 <= k < before.len() && before[k] == c;
                            assert(after[k] == c);
                        }
                        if c == chars@[i as int] {
                            assert(after[i as int] == c);
                        }
                        if after.contains(c) {
                            let k = choose|k: int| 0 <= k < after.len() && after[k] == c;
                            if k < i {
                                assert(before[k] == c);
                            }
                        }
                    }
                }
            }
            i += 1;
        }
        proof {
            assert(chars@.take(i as int) =~= chars@);
        }
        UnicodeCollection(set)
    }

    /// Adds `c`; tells whether it was new.
    pub fn insert(&mut self, c: char) -> (r: bool)
        ensures
            final(self).members() == old(self).members().insert(c),
            r == !old(self).members().contains(c),
    {
        set_insert(&mut self.0, c)
    }

    /// Removes `c`; tells whether it was a member.
    pub fn remove(&mut self, c: char) -> (r: bool)
        ensures
            final(self).members() == old(self).members().remove(c),
            r == old(self).members().contains(c),
    {
        set_remove(&mut self.0, c)
    }
}

impl CharacterInspector for UnicodeCollection {
    open spec fn spec_contains(&self, c: char) -> bool {
        self.members().contains(c)
    }

    open spec fn enumerates(&self, s: Seq<char>) -> bool {
        s.to_set() == self.members() && s.no_duplicates()
    }

    fn characters(&self) -> (r: Vec<char>) {
        set_items(&self.0)
    }

    fn contains(&self, c: char) -> (r: bool) {
        set_contains(&self.0, c)
    }
}

/// The ranges that are searched for the characters of a property, in the
/// order in which they are searched.
pub open spec fn scanned_ranges() -> Seq<(u32, u32)> {
    seq![
        (0x0020u32, 0x007Eu32),
        (0x00A0u32, 0x024Fu32),
        (0x0370u32, 0x052Fu32),
        (0x2000u32, 0x206Fu32),
        (0x2070u32, 0x218Fu32),
        (0x2190u32, 0x21FFu32),
        (0x2200u32, 0x22FFu32),
        (0x20A0u32, 0x20CFu32),
        (0x2500u32, 0x257Fu32),
        (0x2600u32, 0x26FFu32),
        (0x1F300u32, 0x1F5FFu32),
    ]
}

/// The characters with the property `p` in the given ranges, range after range.
pub open spec fn property_characters(p: PropertyType, ranges: Seq<(u32, u32)>) -> Seq<char>
    decreases ranges.len(),
{
    if ranges.len() == 0 {
        Seq::empty()
    } else {
        property_characters(p, ranges.drop_last()) + scalar_range(
            ranges.last().0 as int,
            ranges.last().1 as int,
        ).filter(|c: char| p.spec_matches(c))
    }
}

/// The ranges of `scanned_ranges`, as a value.
fn ranges_to_scan() -> (r: Vec<(u32, u32)>)
    ensures
        r@ == scanned_ranges(),
{
    let mut r: Vec<(u32, u32)> = Vec::new();
    r.push((0x0020, 0x007E));
    r.push((0x00A0, 0x024F));
    r.push((0x0370, 0x052F));
    r.push((0x2000, 0x206F));
    r.push((0x2070, 0x218F));
    r.push((0x2190, 0x21FF));
    r.push((0x2200, 0x22FF));
    r.push((0x20A0, 0x20CF));
    r.push((0x2500, 0x257F));
    r.push((0x2600, 0x26FF));
    r.push((0x1F300, 0x1F5FF));
    assert(r@ =~= scanned_ranges());
    r
}

impl CharacterInspector for PropertyType {
    open spec fn spec_contains(&self, c: char) -> bool {
        self.spec_matches(c)
    }

    open spec fn enumerates(&self, s: Seq<char>) -> bool {
        s == property_characters(*self, scanned_ranges())
    }

    /// The characters with the property among the ranges in common use.
    fn characters(&self) -> (r: Vec<char>) {
        let ranges = ranges_to_scan();
        let ghost pred = |c: char| self.spec_matches(c);
        let mut chars: Vec<char> = Vec::new();
        let mut i: usize = 0;
        while i < ranges.len()
            invariant
                i <= ranges.len(),
                pred == (|c: char| self.spec_matches(c)),
                chars@ == property_characters(*self, ranges@.take(i as int)),
            decreases ranges.len() - i,
        {
            let (start, end) = ranges[i];
            let ghost done = chars@;
            let mut code: u64 = start as u64;
            proof {
                lemma_filter_empty(pred);
            }
            while code <= end as u64
                invariant
                    start <= code,
                    code <= end + 1 || code == start,
                    pred == (|c: char| self.spec_matches(c)),
                    chars@ == done + scalar_range(start as int, code - 1).filter(pred),
                decreases end + 1 - code,
            {
                proof {
                    lemma_filter_push(scalar_range(start as int, code - 1), code as char, pred);
                }
                if let Some(c) = char::from_u32(code as u32) {
                    if self.matches(c) {
                        chars.push(c);
                    }
                }
                code += 1;
            }
            proof {
                assert(ranges@.take(i + 1).drop_last() =~= ranges@.take(i as int));
                assert(scalar_range(start as int, code - 1) == scalar_range(
                    start as int,
                    end as int,
                ));
            }
            i += 1;
        }
        proof {
            assert(ranges@.take(i as int) =~= ranges@);
        }
        chars
    }

    fn contains(&self, c: char) -> (r: bool) {
        self.matches(c)
    }
}

/// What a category classifies by.
pub enum UnicodeCategory {
    Block(UnicodeBlock),
    MultiBlock(UnicodeMultiBlock),
    Collection(UnicodeCollection),
    Property(PropertyType),
}

/// A classifier as a plain value: a block, a union of blocks, a set of
/// characters, or a property.
pub enum Classifier {
    Block(UnicodeBlock),
    Union(Seq<UnicodeBlock>),
    Collection(Set<char>),
    Property(PropertyType),
}

impl View for UnicodeCategory {
    type V = Classifier;

    open spec fn view(&self) -> Classifier {
        match self {
            UnicodeCategory::Block(block) => Classifier::Block(*block),
            UnicodeCategory::MultiBlock(blocks) => Classifier::Union(blocks.0@),
            UnicodeCategory::Collection(collection) => Classifier::Collection(collection.members()),
            UnicodeCategory::Property(property) => Classifier::Property(*property),
        }
    }
}

impl Default for UnicodeCategory {
    /// The empty collection.
    fn default() -> (r: Self)
        ensures
            r matches UnicodeCategory::Collection(collection) && collection.members()
                == Set::<char>::empty(),
    {
        UnicodeCategory::Collection(UnicodeCollection::new())
    }
}

impl CharacterInspector for UnicodeCategory {
    open spec fn spec_contains(&self, c: char) -> bool {
        match self {
            UnicodeCategory::Block(block) => block.spec_contains(c),
            UnicodeCategory::MultiBlock(blocks) => blocks.spec_contains(c),
            UnicodeCategory::Collection(collection) => collection.spec_contains(c),
            UnicodeCategory::Property(property) => property.spec_contains(c),
        }
    }

    open spec fn enumerates(&self, s: Seq<char>) -> bool {
        match self {
            UnicodeCategory::Block(block) => block.enumerates(s),
            UnicodeCategory::MultiBlock(blocks) => blocks.enumerates(s),
            UnicodeCategory::Collection(collection) => collection.enumerates(s),
            UnicodeCategory::Property(property) => property.enumerates(s),
        }
    }

    fn characters(&self) -> (r: Vec<char>) {
        match self {
            UnicodeCategory::Block(block) => block.characters(),
            UnicodeCategory::MultiBlock(blocks) => blocks.characters(),
            UnicodeCategory::Collection(collection) => collection.characters(),
            UnicodeCategory::Property(property) => property.characters(),
        }
    }

    fn contains(&self, c: char) -> (r: bool) {
        match self {
            UnicodeCategory::Block(block) => block.contains(c),
            UnicodeCategory::MultiBlock(blocks) => blocks.contains(c),
            UnicodeCategory::Collection(collection) => collection.contains(c),
            UnicodeCategory::Property(property) => property.contains(c),
        }
    }
}

/// The number that stands for a name, as `egui::Id::new` hashes it.
pub uninterp spec fn id_of_name(name: Seq<char>) -> u64;

/// `egui::Id::new` on the name, and the `value` of the id it gives: a hash
/// of the name with fixed seeds, so equal names give equal numbers.
#[verifier::external_body]
fn hash_name(name: &str) -> (r: u64)
    ensures
        r == id_of_name(name@),
{
    egui::Id::new(name).value()
}

/// The identity of a category: a number derived from its name and nothing else.
#[derive(Clone, Copy, Debug, PartialEq, Eq, Hash, Structural)]
pub struct CategoryId {
    pub value: u64,
}

impl CategoryId {
    /// The identity that belongs to `name`.
    pub open spec fn of(name: Seq<char>) -> CategoryId {
        CategoryId { value: id_of_name(name) }
    }

    /// The identity that belongs to `name`.
    pub fn new(name: &str) -> (r: Self)
        ensures
            r == Self::of(name@),
    {
        CategoryId { value: hash_name(name) }
    }
}

/// A named classifier. Its identity is a function of the name alone: two
/// categories of one name cannot be told apart when one is selected.
pub struct Category {
    pub name: String,
    pub unicode_category: UnicodeCategory,
}

impl View for Category {
    type V = (Seq<char>, Classifier);

    open spec fn view(&self) -> (Seq<char>, Classifier) {
        (self.name@, self.unicode_category@)
    }
}

impl Category {
    /// The identity of the category.
    pub open spec fn spec_id(&self) -> CategoryId {
        CategoryId::of(self.name@)
    }

    /// The category `name` over the given classifier.
    pub fn new(name: &str, unicode_category: UnicodeCategory) -> (r: Self)
        ensures
            r.name@ == name@,
            r.unicode_category == unicode_category,
    {
        Category { name: name.to_owned(), unicode_category }
    }

    /// The identity of the category.
    pub fn id(&self) -> (r: CategoryId)
        ensures
            r == self.spec_id(),
    {
        CategoryId::new(self.name.as_str())
    }
}

impl Default for Category {
    /// The category without a name, over the empty collection.
    fn default() -> (r: Self)
        ensures
            r.name@ == Seq::<char>::empty(),
            r.unicode_category matches UnicodeCategory::Collection(collection)
                && collection.members() == Set::<char>::empty(),
    {
        Category { name: String::new(), unicode_category: UnicodeCategory::default() }
    }
}

/// The position of the first category with the identity `id`, if there is one.
pub open spec fn selected_position(categories: Seq<Category>, id: CategoryId) -> Option<int>
    decreases categories.len(),
{
    if categories.len() == 0 {
        None
    } else if selected_position(categories.drop_last(), id) is Some {
        selected_position(categories.drop_last(), id)
    } else if categories.last().spec_id() == id {
        Some(categories.len() - 1)
    } else {
        None
    }
}

/// The first category with the identity `id`, if there is one.
pub fn find_category(categories: &[Category], id: CategoryId) -> (r: Option<usize>)
    ensures
        match r {
            Some(i) => selected_position(categories@, id) == Some(i as int) && i
                < categories@.len(),
            None => selected_position(categories@, id) is None,
        },
{
    let mut i: usize = 0;
    while i < categories.len()
        invariant
            i <= categories.len(),
            selected_position(categories@.take(i as int), id) is None,
        decreases categories.len() - i,
    {
        proof {
            assert(categories@.take(i + 1).drop_last() =~= categories@.take(i as int));
        }
        if categories[i].id() == id {
            proof {
                lemma_selected_position_extends(categories@, i + 1, id);
            }
            return Some(i);
        }
        i += 1;
    }
    proof {
        assert(categories@.take(i as int) =~= categories@);
    }
    None
}

/// The selected position is the first at which a category has the identity.
pub proof fn lemma_selected_position_is_first(categories: Seq<Category>, id: CategoryId)
    ensures
        match selected_position(categories, id) {
            Some(i) => 0 <= i < categories.len() && categories[i].spec_id() == id && forall|j: int|
                0 <= j < i ==> (#[trigger] categories[j]).spec_id() != id,
            None => forall|j: int|
                0 <= j < categories.len() ==> (#[trigger] categories[j]).spec_id() != id,
        },
    decreases categories.len(),
{
    if categories.len() > 0 {
        let init = categories.drop_last();
        lemma_selected_position_is_first(init, id);
        assert forall|j: int| 0 <= j < init.len() implies init[j] == categories[j] by {}
        match selected_position(init, id) {
            Some(i) => {
                assert(init[i] == categories[i]);
            },
            None => {
                assert forall|j: int| 0 <= j < init.len() implies (#[trigger] categories[j]).spec_id()
                    != id by {
                    assert(init[j].spec_id() != id);
                }
            },
        }
    }
}

/// A selection found among the first `n` categories is the selection among all.
pub proof fn lemma_selected_position_extends(categories: Seq<Category>, n: int, id: CategoryId)
    requires
        0 <= n <= categories.len(),
        selected_position(categories.take(n), id) is Some,
    ensures
        selected_position(categories, id) == selected_position(categories.take(n), id),
    decreases categories.len() - n,
{
    if n == categories.len() {
        assert(categories.take(n) =~= categories);
    } else {
        let init = categories.drop_last();
        assert(init.take(n) =~= categories.take(n));
        lemma_selected_position_extends(init, n, id);
    }
}

/// The enumeration of a union lists exactly the members of its blocks.
pub proof fn lemma_union_characters_contains(blocks: Seq<UnicodeBlock>, c: char)
    ensures
        union_characters(blocks).contains(c) <==> union_contains(blocks, c),
    decreases blocks.len(),
{
    if blocks.len() == 0 {
        assert(union_characters(blocks) =~= Seq::<char>::empty());
    } else {
        let init = blocks.drop_last();
        let last = blocks.last();
        lemma_union_characters_contains(init, c);
        lemma_scalar_range_contains(last.start as int, last.end as int, c);
        let a = union_characters(init);
        let b = last.spec_characters();
        if a.contains(c) {
            let i = choose|i: int| 0 <= i < a.len() && a[i] == c;
            assert((a + b)[i] == c);
            let k = choose|k: int| 0 <= k < init.len() && (#[trigger] init[k]).holds(c);
            assert(blocks[k].holds(c));
        }
        if b.contains(c) {
            let i = choose|i: int| 0 <= i < b.len() && b[i] == c;
            assert((a + b)[a.len() + i] == c);
            assert(blocks[blocks.len() - 1].holds(c));
        }
        if (a + b).contains(c) {
            let i = choose|i: int| 0 <= i < (a + b).len() && (a + b)[i] == c;
            if i < a.len() {
                assert(a[i] == c);
            } else {
                assert(b[i - a.len()] == c);
            }
        }
        if union_contains(blocks, c) {
            let k = choose|k: int| 0 <= k < blocks.len() && (#[trigger] blocks[k]).holds(c);
            if k < init.len() {
                assert(init[k].holds(c));
            }
        }
    }
}

/// Membership agrees with enumeration: for a block, a union of blocks and a
/// collection, a character is a member exactly if every enumeration of the
/// classifier lists it. (A property is enumerated over the ranges in common
/// use only, and can have members beyond them.)
pub proof fn lemma_contains_agrees_with_characters(
    category: UnicodeCategory,
    listed: Seq<char>,
    c: char,
)
    requires
        !(category is Property),
        category.enumerates(listed),
    ensures
        listed.contains(c) <==> category.spec_contains(c),
{
    match category {
        UnicodeCategory::Block(block) => {
            lemma_scalar_range_contains(block.start as int, block.end as int, c);
        },
        UnicodeCategory::MultiBlock(blocks) => {
            lemma_union_characters_contains(blocks.0@, c);
        },
        UnicodeCategory::Collection(collection) => {
            assert(listed.to_set().contains(c) == listed.contains(c));
        },
        UnicodeCategory::Property(property) => {},
    }
}

} // verus!
