//! What is shown for a selection: the recently used characters, the
//! collection, the results of the search, the characters of a category, or
//! the whole index.

use crate::categories::{
    find_category, selected_position, Category, CharacterInspector, UnicodeCollection,
};
use crate::glyph::{char_name, display_name, name_characters};
use crate::index::{
    ascending, entries, has_key, lemma_entries_push, lookup, to_map, CharacterIndex,
    CharacterRecord, Entry,
};
use crate::selection::{RecentlyUsed, SelectionState};
use vstd::prelude::*;

verus! {

/// The characters of a list, each with its display name, in the order of the list.
pub open spec fn named(list: Seq<char>) -> Seq<Entry> {
    list.map_values(|c: char| (c, display_name(c)))
}

/// The characters of an enumeration that the table has, each with the name
/// that the table gives it, in the order of the enumeration.
pub open spec fn listed_in(listed: Seq<char>, table: Seq<Entry>) -> Seq<Entry>
    decreases listed.len(),
{
    if listed.len() == 0 {
        Seq::empty()
    } else if has_key(table, listed.last()) {
        listed_in(listed.drop_last(), table).push(
            (listed.last(), lookup(table, listed.last())->0),
        )
    } else {
        listed_in(listed.drop_last(), table)
    }
}

/// Whether `shown` is what a selection shows.
///
/// The recently used characters are shown most recent first, under their
/// display names. The collection is shown ascending by codepoint, under
/// display names. `Search` shows the results of the search. A category
/// shows those of its characters that the index has, in the order in which
/// the category lists them. Where nothing is selected, or a category that
/// does not exist, the whole index is shown.
pub open spec fn shows(
    selection: SelectionState,
    recently_used: Seq<char>,
    collection: Set<char>,
    search_results: Seq<Entry>,
    full_index: Seq<Entry>,
    categories: Seq<Category>,
    shown: Seq<Entry>,
) -> bool {
    match selection {
        SelectionState::RecentlyUsed => shown == named(recently_used),
        SelectionState::Collection => ascending(shown) && to_map(shown) == Map::new(
            |c: char| collection.contains(c),
            |c: char| display_name(c),
        ),
        SelectionState::Search => shown == search_results,
        SelectionState::Named(id) => match selected_position(categories, id) {
            Some(i) => exists|listed: Seq<char>|
                categories[i].unicode_category.enumerates(listed) && shown == #[trigger] listed_in(
                    listed,
                    full_index,
                ),
            None => shown == full_index,
        },
        SelectionState::Unselected => shown == full_index,
    }
}

/// The characters of a list, each with its display name.
fn name_all(list: &Vec<char>) -> (r: Vec<CharacterRecord>)
    ensures
        entries(r@) == named(list@),
{
    let mut records: Vec<CharacterRecord> = Vec::new();
    let mut i: usize = 0;
    while i < list.len()
        invariant
            i <= list.len(),
            entries(records@) == named(list@.take(i as int)),
        decreases list.len() - i,
    {
        let name = char_name(list[i]);
        let record = CharacterRecord { codepoint: list[i], name };
        proof {
            lemma_entries_push(records@, record);
            assert(named(list@.take(i + 1)) =~= named(list@.take(i as int)).push(record@));
        }
        records.push(record);
        i += 1;
    }
    proof {
        assert(list@.take(i as int) =~= list@);
    }
    records
}

/// The characters of an enumeration that the index has, under the names of the index.
fn look_up_all(listed: &Vec<char>, index: &CharacterIndex) -> (r: Vec<CharacterRecord>)
    ensures
        entries(r@) == listed_in(listed@, index@),
{
    let mut records: Vec<CharacterRecord> = Vec::new();
    let mut i: usize = 0;
    while i < listed.len()
        invariant
            i <= listed.len(),
            entries(records@) == listed_in(listed@.take(i as int), index@),
        decreases listed.len() - i,
    {
        proof {
            assert(listed@.take(i + 1).drop_last() =~= listed@.take(i as int));
        }
        match index.get(&listed[i]) {
            Some(name) => {
                let record = CharacterRecord { codepoint: listed[i], name: name.clone() };
                proof {
                    lemma_entries_push(records@, record);
                }
                records.push(record);
            },
            None => {},
        }
        i += 1;
    }
    proof {
        assert(listed@.take(i as int) =~= listed@);
    }
    records
}

/// What is shown for a selection.
pub fn get_glyphs_to_show(
    selection: SelectionState,
    recently_used: &RecentlyUsed,
    collection: &UnicodeCollection,
    search_results: &CharacterIndex,
    full_index: &CharacterIndex,
    categories: &[Category],
) -> (r: Vec<CharacterRecord>)
    ensures
        shows(
            selection,
            recently_used@,
            collection.members(),
            search_results@,
            full_index@,
            categories@,
            entries(r@),
        ),
{
    match selection {
        SelectionState::RecentlyUsed => name_all(&recently_used.chars()),
        SelectionState::Collection => {
            let members = collection.characters();
            let sorted = name_characters(&members, false);
            let r = sorted.to_vec();
            proof {
                assert(to_map(entries(r@)) =~= Map::new(
                    |c: char| collection.members().contains(c),
                    |c: char| display_name(c),
                )) by {
                    assert forall|c: char|
                        members@.contains(c) == collection.members().contains(c) by {
                        assert(members@.to_set().contains(c) == members@.contains(c));
                    }
                }
            }
            r
        },
        SelectionState::Search => search_results.to_vec(),
        SelectionState::Named(id) => match find_category(categories, id) {
            Some(position) => {
                let listed = categories[position].unicode_category.characters();
                look_up_all(&listed, full_index)
            },
            None => full_index.to_vec(),
        },
        SelectionState::Unselected => full_index.to_vec(),
    }
}

} // verus!
