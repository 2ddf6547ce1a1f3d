use glyphana::blocks::UnicodeBlock;
use glyphana::categories::{Category, CategoryId, UnicodeCategory, UnicodeCollection};
use glyphana::display::get_glyphs_to_show;
use glyphana::index::{CharacterIndex, CharacterRecord};
use glyphana::selection::{RecentlyUsed, SelectionState};

fn record(c: char, name: &str) -> CharacterRecord {
    CharacterRecord { codepoint: c, name: name.to_string() }
}

fn full_index() -> CharacterIndex {
    let mut index = CharacterIndex::new();
    index.insert('A', "Capital A".to_string());
    index.insert('C', "Capital C".to_string());
    index.insert('a', "Small A".to_string());
    index.insert('α', "Alpha".to_string());
    index
}

fn results() -> CharacterIndex {
    let mut index = CharacterIndex::new();
    index.insert('α', "Alpha".to_string());
    index
}

fn categories() -> Vec<Category> {
    vec![
        Category::new("Capitals", UnicodeCategory::Block(UnicodeBlock::new(0x41, 0x5A))),
        Category::new("Greek", UnicodeCategory::Block(UnicodeBlock::new(0x370, 0x3FF))),
    ]
}

fn show(selection: SelectionState) -> Vec<CharacterRecord> {
    let mut recently_used = RecentlyUsed::new(10);
    recently_used.add_to_recently_used('-');
    recently_used.add_to_recently_used('α');
    let collection = UnicodeCollection::from_chars(&vec!['😀', 'A', ' ']);
    get_glyphs_to_show(selection, &recently_used, &collection, &results(), &full_index(), &categories())
}

#[test]
fn recently_used_characters_are_shown_most_recent_first() {
    assert_eq!(
        show(SelectionState::RecentlyUsed),
        vec![record('α', "Greek Small Letter Alpha"), record('-', "Hyphen-minus")]
    );
}

#[test]
fn the_collection_is_shown_ascending() {
    assert_eq!(
        show(SelectionState::Collection),
        vec![record(' ', "Space"), record('A', "Latin Capital Letter a"), record('😀', "Grinning Face")]
    );
}

#[test]
fn search_shows_the_results() {
    assert_eq!(show(SelectionState::Search), vec![record('α', "Alpha")]);
}

#[test]
fn a_category_shows_its_characters_that_the_index_has() {
    assert_eq!(
        show(SelectionState::Named(CategoryId::new("Capitals"))),
        vec![record('A', "Capital A"), record('C', "Capital C")]
    );
    assert_eq!(show(SelectionState::Named(CategoryId::new("Greek"))), vec![record('α', "Alpha")]);
}

#[test]
fn nothing_selected_shows_the_whole_index() {
    let all = vec![
        record('A', "Capital A"),
        record('C', "Capital C"),
        record('a', "Small A"),
        record('α', "Alpha"),
    ];
    assert_eq!(show(SelectionState::Unselected), all);
    assert_eq!(show(SelectionState::Named(CategoryId::new("Arabic"))), all);
}
