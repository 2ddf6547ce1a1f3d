use glyphana::categories::CategoryId;
use glyphana::selection::{
    collection_id, recently_used_id, search_id, RecentlyUsed, SelectionState, COLLECTION,
    RECENTLY_USED, SEARCH,
};

#[test]
fn typing_forces_search() {
    let named = SelectionState::Named(CategoryId::new("Greek"));
    for state in [
        SelectionState::Unselected,
        SelectionState::RecentlyUsed,
        SelectionState::Collection,
        SelectionState::Search,
        named,
    ] {
        assert_eq!(state.query_changed(false, SelectionState::Unselected), SelectionState::Search);
        assert_eq!(state.query_changed(false, SelectionState::RecentlyUsed), SelectionState::Search);
    }
}

#[test]
fn clearing_the_query_ends_search() {
    assert_eq!(
        SelectionState::Search.query_changed(true, SelectionState::Unselected),
        SelectionState::Unselected
    );
    assert_eq!(
        SelectionState::Search.query_changed(true, SelectionState::RecentlyUsed),
        SelectionState::RecentlyUsed
    );
    assert_eq!(
        SelectionState::Search.query_changed(true, SelectionState::Search),
        SelectionState::Unselected
    );
}

#[test]
fn clearing_the_query_leaves_other_selections() {
    let named = SelectionState::Named(CategoryId::new("Greek"));
    for state in
        [SelectionState::Unselected, SelectionState::RecentlyUsed, SelectionState::Collection, named]
    {
        assert_eq!(state.query_changed(true, SelectionState::Unselected), state);
        assert_eq!(state.query_changed(true, SelectionState::Collection), state);
    }
}

#[test]
fn a_click_selects_and_a_second_click_deselects() {
    let greek = SelectionState::Named(CategoryId::new("Greek"));
    let latin = SelectionState::Named(CategoryId::new("Latin"));
    assert_eq!(SelectionState::Unselected.clicked(greek, true), greek);
    assert_eq!(greek.clicked(greek, true), SelectionState::Unselected);
    assert_eq!(greek.clicked(latin, true), latin);
    assert_eq!(greek.clicked(SelectionState::RecentlyUsed, true), SelectionState::RecentlyUsed);
    assert_eq!(
        SelectionState::RecentlyUsed.clicked(SelectionState::RecentlyUsed, false),
        SelectionState::Unselected
    );
    assert_eq!(
        SelectionState::RecentlyUsed.clicked(SelectionState::Collection, false),
        SelectionState::Collection
    );
}

#[test]
fn a_click_during_search_switches_the_state() {
    let greek = SelectionState::Named(CategoryId::new("Greek"));
    assert_eq!(SelectionState::Search.clicked(greek, false), greek);
    assert_eq!(SelectionState::Search.clicked(SelectionState::Collection, false), SelectionState::Collection);
    assert_eq!(SelectionState::Search.clicked(SelectionState::Search, false), SelectionState::Unselected);
    assert_eq!(greek.clicked(SelectionState::Search, false), SelectionState::Search);
}

#[test]
fn search_cannot_be_selected_without_a_query() {
    let greek = SelectionState::Named(CategoryId::new("Greek"));
    assert_eq!(greek.clicked(SelectionState::Search, true), greek);
    assert_eq!(SelectionState::Unselected.clicked(SelectionState::Search, true), SelectionState::Unselected);
    assert_eq!(SelectionState::Search.clicked(SelectionState::Search, true), SelectionState::Search);
}

#[test]
fn pseudo_categories_are_identified_by_their_names() {
    assert_eq!(RECENTLY_USED, "Recently Used");
    assert_eq!(COLLECTION, "Collection");
    assert_eq!(SEARCH, "Search");
    assert_eq!(recently_used_id(), CategoryId::new("Recently Used"));
    assert_eq!(collection_id(), CategoryId::new("Collection"));
    assert_eq!(search_id(), CategoryId::new("Search"));
    assert_eq!(SelectionState::RecentlyUsed.id(), recently_used_id());
    assert_eq!(SelectionState::Collection.id(), collection_id());
    assert_eq!(SelectionState::Search.id(), search_id());
    assert_eq!(SelectionState::Unselected.id(), CategoryId::new("__none__"));
    let greek = CategoryId::new("Greek");
    assert_eq!(SelectionState::Named(greek).id(), greek);
}

#[test]
fn a_new_list_is_empty() {
    let list = RecentlyUsed::new(3);
    assert_eq!(list.len(), 0);
    assert!(list.is_empty());
    assert_eq!(list.max_len(), 3);
    assert_eq!(list.chars(), Vec::<char>::new());
}

#[test]
fn the_most_recent_character_comes_first() {
    let mut list = RecentlyUsed::new(5);
    list.add_to_recently_used('a');
    list.add_to_recently_used('b');
    list.add_to_recently_used('c');
    assert_eq!(list.chars(), vec!['c', 'b', 'a']);
    assert_eq!(list.len(), 3);
    assert!(!list.is_empty());
}

#[test]
fn one_character_too_many_evicts_the_oldest() {
    let mut list = RecentlyUsed::new(3);
    for c in ['a', 'b', 'c', 'd'] {
        list.add_to_recently_used(c);
    }
    assert_eq!(list.chars(), vec!['d', 'c', 'b']);
    list.add_to_recently_used('e');
    assert_eq!(list.chars(), vec!['e', 'd', 'c']);
    assert_eq!(list.len(), 3);
}

#[test]
fn using_a_character_again_moves_it_to_the_front() {
    let mut list = RecentlyUsed::new(3);
    for c in ['a', 'b', 'c'] {
        list.add_to_recently_used(c);
    }
    list.add_to_recently_used('a');
    assert_eq!(list.chars(), vec!['a', 'c', 'b']);
    assert_eq!(list.len(), 3);
    list.add_to_recently_used('c');
    assert_eq!(list.chars(), vec!['c', 'a', 'b']);
    list.add_to_recently_used('c');
    assert_eq!(list.chars(), vec!['c', 'a', 'b']);
    // The character touched longest ago is 'b' now, and it is the one to go.
    list.add_to_recently_used('z');
    assert_eq!(list.chars(), vec!['z', 'c', 'a']);
}

#[test]
fn a_list_bounded_at_zero_or_one() {
    let mut none = RecentlyUsed::new(0);
    none.add_to_recently_used('a');
    assert_eq!(none.chars(), Vec::<char>::new());
    let mut one = RecentlyUsed::new(1);
    one.add_to_recently_used('a');
    one.add_to_recently_used('b');
    assert_eq!(one.chars(), vec!['b']);
    one.add_to_recently_used('b');
    assert_eq!(one.chars(), vec!['b']);
}

#[test]
fn clear_forgets_everything_but_the_bound() {
    let mut list = RecentlyUsed::new(2);
    list.add_to_recently_used('a');
    list.clear();
    assert!(list.is_empty());
    assert_eq!(list.max_len(), 2);
    for c in ['x', 'y', 'z'] {
        list.add_to_recently_used(c);
    }
    assert_eq!(list.chars(), vec!['z', 'y']);
}
