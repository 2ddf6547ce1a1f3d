//! What is selected: a category, one of the pseudo-categories, or nothing;
//! and the list of recently used characters.

use crate::categories::CategoryId;
use crate::seqs::{lemma_filter_all, lemma_filter_push};
use std::collections::VecDeque;
use vstd::prelude::*;

verus! {

/// The name of the pseudo-category of recently used characters.
pub const RECENTLY_USED: &'static str = "Recently Used";

/// The name of the pseudo-category of collected characters.
pub const COLLECTION: &'static str = "Collection";

/// The name of the pseudo-category of search results.
pub const SEARCH: &'static str = "Search";

/// The name whose identity stands for "nothing selected".
pub const UNSELECTED: &'static str = "__none__";

/// The identity of the pseudo-category of recently used characters.
pub fn recently_used_id() -> (r: CategoryId)
    ensures
        r == CategoryId::of(RECENTLY_USED@),
{
    CategoryId::new(RECENTLY_USED)
}

/// The identity of the pseudo-category of collected characters.
pub fn collection_id() -> (r: CategoryId)
    ensures
        r == CategoryId::of(COLLECTION@),
{
    CategoryId::new(COLLECTION)
}

/// The identity of the pseudo-category of search results.
pub fn search_id() -> (r: CategoryId)
    ensures
        r == CategoryId::of(SEARCH@),
{
    CategoryId::new(SEARCH)
}

/// What is selected. There is no history: a state knows nothing of the one before.
#[derive(Clone, Copy, Debug, PartialEq, Eq, Structural)]
pub enum SelectionState {
    /// Nothing is selected.
    Unselected,
    /// The recently used characters.
    RecentlyUsed,
    /// The collected characters.
    Collection,
    /// The results of the search.
    Search,
    /// The category with the given identity.
    Named(CategoryId),
}

impl SelectionState {
    /// The state after the query text changed. A query that is not empty
    /// forces `Search`. An empty one ends `Search`, which gives way to
    /// `fallback` (to `Unselected` where the fallback is `Search` itself);
    /// any other state stays.
    pub open spec fn after_query_change(self, text_is_empty: bool, fallback: SelectionState) -> SelectionState {
        if !text_is_empty {
            SelectionState::Search
        } else if self is Search {
            if fallback is Search {
                SelectionState::Unselected
            } else {
                fallback
            }
        } else {
            self
        }
    }

    /// The state after `target` was clicked. Clicking what is selected
    /// deselects it; clicking anything else selects it. The search results
    /// cannot be selected while the query is empty: such a click changes nothing.
    pub open spec fn after_click(self, target: SelectionState, text_is_empty: bool) -> SelectionState {
        if target is Search && text_is_empty {
            self
        } else if self == target {
            SelectionState::Unselected
        } else {
            target
        }
    }

    /// The identity under which the state is looked up among the categories.
    pub open spec fn spec_id(self) -> CategoryId {
        match self {
            SelectionState::Unselected => CategoryId::of(UNSELECTED@),
            SelectionState::RecentlyUsed => CategoryId::of(RECENTLY_USED@),
            SelectionState::Collection => CategoryId::of(COLLECTION@),
            SelectionState::Search => CategoryId::of(SEARCH@),
            SelectionState::Named(id) => id,
        }
    }

    /// The state after the query text changed.
    pub fn query_changed(self, text_is_empty: bool, fallback: SelectionState) -> (r: Self)
        ensures
            r == self.after_query_change(text_is_empty, fallback),
    {
        if !text_is_empty {
            SelectionState::Search
        } else {
            match self {
                SelectionState::Search => match fallback {
                    SelectionState::Search => SelectionState::Unselected,
                    _ => fallback,
                },
                _ => self,
            }
        }
    }

    /// The state after `target` was clicked.
    pub fn clicked(self, target: SelectionState, text_is_empty: bool) -> (r: Self)
        ensures
            r == self.after_click(target, text_is_empty),
    {
        let search_disabled = match target {
            SelectionState::Search => text_is_empty,
            _ => false,
        };
        if search_disabled {
            self
        } else if self == target {
            SelectionState::Unselected
        } else {
            target
        }
    }

    /// The identity under which the state is looked up among the categories.
    pub fn id(self) -> (r: CategoryId)
        ensures
            r == self.spec_id(),
    {
        match self {
            SelectionState::Unselected => CategoryId::new(UNSELECTED),
            SelectionState::RecentlyUsed => recently_used_id(),
            SelectionState::Collection => collection_id(),
            SelectionState::Search => search_id(),
            SelectionState::Named(id) => id,
        }
    }
}

/// The test that every character but `c` passes.
pub open spec fn other_than(c: char) -> spec_fn(char) -> bool {
    |x: char| x != c
}

/// A list after `c` was used: `c` comes to the front, an earlier occurrence
/// of it leaves, and what exceeds the bound falls off the end.
pub open spec fn touched(list: Seq<char>, bound: nat, c: char) -> Seq<char> {
    let moved = seq![c] + list.filter(other_than(c));
    if moved.len() > bound {
        moved.take(bound as int)
    } else {
        moved
    }
}

/// A list after the characters of `used` were used one after the other.
pub open spec fn touched_all(list: Seq<char>, bound: nat, used: Seq<char>) -> Seq<char>
    decreases used.len(),
{
    if used.len() == 0 {
        list
    } else {
        touched(touched_all(list, bound, used.drop_last()), bound, used.last())
    }
}

/// Filtering the one occurrence of a character out of a list without
/// duplicates removes it at its position.
pub proof fn lemma_filter_out_at(list: Seq<char>, p: int, c: char)
    requires
        list.no_duplicates(),
        0 <= p < list.len(),
        list[p] == c,
    ensures
        list.filter(other_than(c)) == list.remove(p),
    decreases list.len(),
{
    let pred = other_than(c);
    let init = list.drop_last();
    let last = list.last();
    assert(list =~= init.push(last));
    lemma_filter_push(init, last, pred);
    if p == list.len() - 1 {
        assert forall|i: int| 0 <= i < init.len() implies pred(#[trigger] init[i]) by {
            assert(list[i] != list[p]);
        }
        lemma_filter_all(init, pred);
        assert(list.remove(p) =~= init);
    } else {
        assert(list[list.len() - 1] != list[p]);
        assert(init.no_duplicates());
        assert(init[p] == c);
        lemma_filter_out_at(init, p, c);
        assert(init.remove(p).push(last) =~= list.remove(p));
    }
}

/// Filtering a character out of a list that lacks it changes nothing.
pub proof fn lemma_filter_out_absent(list: Seq<char>, c: char)
    requires
        !list.contains(c),
    ensures
        list.filter(other_than(c)) == list,
{
    let pred = other_than(c);
    assert forall|i: int| 0 <= i < list.len() implies pred(#[trigger] list[i]) by {
        if list[i] == c {
            assert(list.contains(c));
        }
    }
    lemma_filter_all(list, pred);
}

/// Using a character keeps a list free of duplicates and within its bound.
pub proof fn lemma_touched_well_formed(list: Seq<char>, bound: nat, c: char)
    requires
        list.no_duplicates(),
        list.len() <= bound,
    ensures
        touched(list, bound, c).no_duplicates(),
        touched(list, bound, c).len() <= bound,
{
    let rest = list.filter(other_than(c));
    let moved = seq![c] + rest;
    if list.contains(c) {
        let p = choose|p: int| 0 <= p < list.len() && list[p] == c;
        lemma_filter_out_at(list, p, c);
        assert(rest == list.remove(p));
        assert forall|i: int, j: int| 0 <= i < j < moved.len() implies moved[i] != moved[j] by {
            let b = if j - 1 < p {
                j - 1
            } else {
                j
            };
            if i == 0 {
                assert(moved[j] == list[b]);
                assert(list[b] != list[p]);
            } else {
                let a = if i - 1 < p {
                    i - 1
                } else {
                    i
                };
                assert(moved[i] == list[a]);
                assert(moved[j] == list[b]);
                assert(list[a] != list[b]);
            }
        }
    } else {
        lemma_filter_out_absent(list, c);
        assert forall|i: int, j: int| 0 <= i < j < moved.len() implies moved[i] != moved[j] by {
            if i == 0 {
                if moved[j] == c {
                    assert(list[j - 1] == c);
                    assert(list.contains(c));
                }
            } else {
                assert(list[i - 1] != list[j - 1]);
            }
        }
    }
    assert(moved.no_duplicates());
    if moved.len() > bound {
        assert(moved.take(bound as int).no_duplicates());
    }
}

/// The recently used characters: most recent first, none twice, at most
/// `bound` of them.
#[derive(Debug)]
pub struct RecentlyUsed {
    items: VecDeque<char>,
    max_len: usize,
}

impl View for RecentlyUsed {
    type V = Seq<char>;

    closed spec fn view(&self) -> Seq<char> {
        self.items@
    }
}

impl RecentlyUsed {
    /// The largest number of characters that the list keeps.
    pub closed spec fn bound(&self) -> nat {
        self.max_len as nat
    }

    /// The invariant of every list: no character twice, and no more than the bound.
    #[verifier::type_invariant]
    pub open spec fn wf(&self) -> bool {
        self@.no_duplicates() && self@.len() <= self.bound()
    }

    /// The empty list that keeps at most `max_len` characters.
    pub fn new(max_len: usize) -> (r: Self)
        ensures
            r@ == Seq::<char>::empty(),
            r.bound() == max_len,
            r.wf(),
    {
        RecentlyUsed { items: VecDeque::new(), max_len }
    }

    /// The largest number of characters that the list keeps.
    pub fn max_len(&self) -> (r: usize)
        ensures
            r == self.bound(),
    {
        self.max_len
    }

    /// The number of characters in the list.
    pub fn len(&self) -> (r: usize)
        ensures
            r == self@.len(),
    {
        self.items.len()
    }

    /// Whether the list is empty.
    pub fn is_empty(&self) -> (r: bool)
        ensures
            r == (self@.len() == 0),
    {
        self.items.len() == 0
    }

    /// The characters of the list, most recent first.
    pub fn chars(&self) -> (r: Vec<char>)
        ensures
            r@ == self@,
    {
        let mut r: Vec<char> = Vec::new();
        let mut i: usize = 0;
        while i < self.items.len()
            invariant
                i <= self.items.len(),
                r@ == self.items@.take(i as int),
            decreases self.items.len() - i,
        {
            r.push(self.items[i]);
            assert(self.items@.take(i + 1) =~= self.items@.take(i as int).push(
                self.items@[i as int],
            ));
            i += 1;
        }
        assert(self.items@.take(i as int) =~= self.items@);
        r
    }

    /// Forgets every character.
    pub fn clear(&mut self)
        ensures
            final(self)@ == Seq::<char>::empty(),
            final(self).bound() == old(self).bound(),
    {
        let mut items: VecDeque<char> = VecDeque::new();
        std::mem::swap(&mut self.items, &mut items);
    }

    /// Records that `c` was used: it comes to the front; if it was in the
    /// list, it leaves its old place; if the list grows beyond its bound,
    /// the character used longest ago falls off.
    pub fn add_to_recently_used(&mut self, c: char)
        ensures
            final(self)@ == touched(old(self)@, old(self).bound(), c),
            final(self).bound() == old(self).bound(),
            final(self).wf(),
    {
        proof {
            use_type_invariant(&*self);
        }
        let ghost before = self@;
        let ghost bound = self.bound();
        let max_len = self.max_len;
        let mut items: VecDeque<char> = VecDeque::new();
        std::mem::swap(&mut self.items, &mut items);
        assert(items@ == before);

        let mut i: usize = 0;
        while i < items.len() && items[i] != c
            invariant
                i <= items.len(),
                forall|j: int| 0 <= j < i ==> items@[j] != c,
            decreases items.len() - i,
        {
            i += 1;
        }
        let ghost rest = before.filter(other_than(c));
        if i < items.len() {
            proof {
                lemma_filter_out_at(before, i as int, c);
            }
            items.remove(i);
        } else {
            proof {
                if before.contains(c) {
                    let k = choose|k: int| 0 <= k < before.len() && before[k] == c;
                    assert(items@[k] != c);
                }
                lemma_filter_out_absent(before, c);
            }
        }
        assert(items@ == rest);
        items.push_front(c);
        let ghost moved = seq![c] + rest;
        while items.len() > max_len
            invariant
                items@ == moved.take(items@.len() as int),
                items@.len() <= moved.len(),
                moved.len() > max_len ==> items@.len() >= max_len,
                moved.len() <= max_len ==> items@.len() == moved.len(),
            decreases items.len(),
        {
            items.pop_back();
            assert(moved.take(items@.len() as int + 1).subrange(0, items@.len() as int)
                =~= moved.take(items@.len() as int));
        }
        proof {
            if moved.len() <= max_len {
                assert(moved.take(moved.len() as int) =~= moved);
            }
            lemma_touched_well_formed(before, bound, c);
            assert(items@ == touched(before, bound, c));
        }
        std::mem::swap(&mut self.items, &mut items);
    }
}

} // verus!
