use glyphana::blocks::UnicodeBlock;
use glyphana::categories::{
    find_category, Category, CategoryId, CharacterInspector, UnicodeCategory, UnicodeCollection,
    UnicodeMultiBlock,
};
use glyphana::properties::PropertyType;

#[test]
fn a_block_contains_its_bounds_and_what_lies_between() {
    let greek = UnicodeBlock::new(0x0370, 0x03FF);
    assert_eq!(greek.start(), 0x0370);
    assert_eq!(greek.end(), 0x03FF);
    assert!(greek.contains('\u{0370}'));
    assert!(greek.contains('α'));
    assert!(greek.contains('\u{03FF}'));
    assert!(!greek.contains('\u{036F}'));
    assert!(!greek.contains('\u{0400}'));
    assert!(!greek.contains('a'));
}

#[test]
fn a_block_lists_its_characters_ascending() {
    assert_eq!(UnicodeBlock::new(0x41, 0x45).characters(), vec!['A', 'B', 'C', 'D', 'E']);
    assert_eq!(UnicodeBlock::new(0x41, 0x41).characters(), vec!['A']);
    assert_eq!(UnicodeBlock::new(0x42, 0x41).characters(), Vec::<char>::new());
    assert_eq!(UnicodeBlock::new(0x0370, 0x03FF).characters().len(), 144);
}

#[test]
fn a_block_passes_over_surrogates() {
    assert_eq!(UnicodeBlock::new(0xD800, 0xDFFF).characters(), Vec::<char>::new());
    assert_eq!(
        UnicodeBlock::new(0xD7FE, 0xE001).characters(),
        vec!['\u{D7FE}', '\u{D7FF}', '\u{E000}', '\u{E001}']
    );
    assert_eq!(UnicodeBlock::new(0x10FFFE, 0x110005).characters(), vec!['\u{10FFFE}', '\u{10FFFF}']);
    assert_eq!(UnicodeBlock::new(u32::MAX - 1, u32::MAX).characters(), Vec::<char>::new());
}

#[test]
fn the_block_of_a_character_comes_from_the_block_table() {
    assert_eq!(UnicodeBlock::of('A'), Some(UnicodeBlock::new(0x0000, 0x007F)));
    assert_eq!(UnicodeBlock::of('é'), Some(UnicodeBlock::new(0x0080, 0x00FF)));
    assert_eq!(UnicodeBlock::of('α'), Some(UnicodeBlock::new(0x0370, 0x03FF)));
    assert_eq!(UnicodeBlock::of('→'), Some(UnicodeBlock::new(0x2190, 0x21FF)));
    assert_eq!(UnicodeBlock::of('😀'), Some(UnicodeBlock::new(0x1F600, 0x1F64F)));
    assert_eq!(UnicodeBlock::of('\u{2FE0}'), None);
}

#[test]
fn the_block_of_a_character_agrees_with_unicode_blocks() {
    for c in ['\0', 'A', 'ÿ', 'Ā', 'α', 'я', 'א', '€', '→', '∀', '─', '☀', '中', '😀', '\u{10FFFF}'] {
        let expected = unicode_blocks::find_unicode_block(c).unwrap();
        let found = UnicodeBlock::of(c).unwrap();
        assert_eq!((found.start(), found.end()), (expected.start(), expected.end()));
        assert!(found.contains(c));
    }
}

#[test]
fn a_union_contains_what_one_of_its_blocks_contains() {
    let latin = UnicodeMultiBlock(vec![UnicodeBlock::new(0x41, 0x5A), UnicodeBlock::new(0x61, 0x7A)]);
    assert!(latin.contains('A'));
    assert!(latin.contains('z'));
    assert!(!latin.contains('['));
    assert!(!latin.contains('0'));
    assert!(!UnicodeMultiBlock(vec![]).contains('A'));
}

#[test]
fn a_union_lists_block_after_block_and_may_repeat() {
    let union = UnicodeMultiBlock(vec![
        UnicodeBlock::new(0x61, 0x63),
        UnicodeBlock::new(0x41, 0x42),
        UnicodeBlock::new(0x62, 0x64),
    ]);
    assert_eq!(union.characters(), vec!['a', 'b', 'c', 'A', 'B', 'b', 'c', 'd']);
    assert_eq!(UnicodeMultiBlock(vec![]).characters(), Vec::<char>::new());
}

#[test]
fn a_collection_holds_what_was_put_in() {
    let mut collection = UnicodeCollection::new();
    assert!(!collection.contains('a'));
    assert!(collection.characters().is_empty());
    assert!(collection.insert('a'));
    assert!(collection.insert('😀'));
    assert!(!collection.insert('a'));
    assert!(collection.contains('a'));
    assert!(collection.contains('😀'));
    assert!(!collection.contains('b'));
    let mut listed = collection.characters();
    listed.sort();
    assert_eq!(listed, vec!['a', '😀']);
    assert!(collection.remove('a'));
    assert!(!collection.remove('a'));
    assert!(!collection.contains('a'));
    assert_eq!(collection.characters(), vec!['😀']);
}

#[test]
fn a_collection_is_built_from_a_list() {
    let collection = UnicodeCollection::from_chars(&vec!['(', ')', '[', ']', '(']);
    let mut listed = collection.characters();
    listed.sort();
    assert_eq!(listed, vec!['(', ')', '[', ']']);
    assert!(collection.contains('['));
    assert!(!collection.contains('{'));
    assert!(UnicodeCollection::from_chars(&vec![]).characters().is_empty());
}

#[test]
fn properties_follow_the_general_category() {
    assert!(PropertyType::UppercaseLetters.matches('A'));
    assert!(PropertyType::UppercaseLetters.matches('Α'));
    assert!(!PropertyType::UppercaseLetters.matches('a'));
    assert!(PropertyType::LowercaseLetters.matches('a'));
    assert!(!PropertyType::LowercaseLetters.matches('A'));
    assert!(PropertyType::MathSymbols.matches('+'));
    assert!(PropertyType::MathSymbols.matches('∀'));
    assert!(!PropertyType::MathSymbols.matches('$'));
    assert!(PropertyType::CurrencySymbols.matches('$'));
    assert!(PropertyType::CurrencySymbols.matches('€'));
    assert!(!PropertyType::CurrencySymbols.matches('+'));
    assert!(PropertyType::Punctuation.matches('!'));
    assert!(PropertyType::Punctuation.matches('-'));
    assert!(!PropertyType::Punctuation.matches('a'));
    assert!(PropertyType::DecimalNumbers.matches('5'));
    assert!(!PropertyType::DecimalNumbers.matches('½'));
    assert!(PropertyType::AllLetters.matches('a'));
    assert!(PropertyType::AllLetters.matches('中'));
    assert!(!PropertyType::AllLetters.matches('1'));
    assert!(PropertyType::AllNumbers.matches('5'));
    assert!(PropertyType::AllNumbers.matches('½'));
    assert!(PropertyType::AllNumbers.matches('Ⅷ'));
    assert!(!PropertyType::AllNumbers.matches('a'));
    assert!(PropertyType::AllSymbols.matches('+'));
    assert!(PropertyType::AllSymbols.matches('$'));
    assert!(PropertyType::AllSymbols.matches('©'));
    assert!(!PropertyType::AllSymbols.matches('!'));
}

#[test]
fn a_property_is_listed_over_the_common_ranges_only() {
    let decimal = PropertyType::DecimalNumbers.characters();
    assert_eq!(decimal, vec!['0', '1', '2', '3', '4', '5', '6', '7', '8', '9']);
    let currency = PropertyType::CurrencySymbols.characters();
    assert!(currency.contains(&'$'));
    assert!(currency.contains(&'€'));
    // The currency block lies in two of the ranges, so its signs are listed twice.
    assert_eq!(currency.iter().filter(|c| **c == '€').count(), 2);
    assert_eq!(currency.iter().filter(|c| **c == '$').count(), 1);
    let uppercase = PropertyType::UppercaseLetters.characters();
    assert!(uppercase.contains(&'A'));
    assert!(uppercase.contains(&'Ω'));
    assert!(!uppercase.contains(&'a'));
    // A member beyond the ranges is a member, but is not listed.
    assert!(PropertyType::UppercaseLetters.contains('\u{1E00}'));
    assert!(!uppercase.contains(&'\u{1E00}'));
    assert!(PropertyType::DecimalNumbers.contains('٣'));
}

#[test]
fn a_category_classifies_as_its_classifier_does() {
    let block = UnicodeCategory::Block(UnicodeBlock::new(0x30, 0x32));
    assert!(block.contains('1'));
    assert!(!block.contains('3'));
    assert_eq!(block.characters(), vec!['0', '1', '2']);

    let union = UnicodeCategory::MultiBlock(UnicodeMultiBlock(vec![
        UnicodeBlock::new(0x30, 0x31),
        UnicodeBlock::new(0x41, 0x42),
    ]));
    assert!(union.contains('B'));
    assert!(!union.contains('C'));
    assert_eq!(union.characters(), vec!['0', '1', 'A', 'B']);

    let collection = UnicodeCategory::Collection(UnicodeCollection::from_chars(&vec!['x']));
    assert!(collection.contains('x'));
    assert!(!collection.contains('y'));
    assert_eq!(collection.characters(), vec!['x']);

    let property = UnicodeCategory::Property(PropertyType::DecimalNumbers);
    assert!(property.contains('7'));
    assert!(!property.contains('x'));
    assert_eq!(property.characters().len(), 10);
}

#[test]
fn membership_agrees_with_enumeration() {
    let categories = vec![
        UnicodeCategory::Block(UnicodeBlock::new(0x20, 0x7E)),
        UnicodeCategory::MultiBlock(UnicodeMultiBlock(vec![
            UnicodeBlock::new(0x41, 0x5A),
            UnicodeBlock::new(0x51, 0x6A),
        ])),
        UnicodeCategory::Collection(UnicodeCollection::from_chars(&vec!['a', '~', '0'])),
    ];
    for category in &categories {
        let listed = category.characters();
        for code in 0u32..0x100 {
            let c = char::from_u32(code).unwrap();
            assert_eq!(category.contains(c), listed.contains(&c), "{c:?}");
        }
    }
}

#[test]
fn the_default_category_is_an_empty_collection() {
    let category = UnicodeCategory::default();
    assert!(matches!(category, UnicodeCategory::Collection(_)));
    assert!(category.characters().is_empty());
    assert!(!category.contains('a'));
    let named = Category::default();
    assert_eq!(named.name, "");
    assert!(named.unicode_category.characters().is_empty());
}

#[test]
fn the_identity_of_a_category_is_a_function_of_its_name() {
    let greek = Category::new("Greek", UnicodeCategory::Block(UnicodeBlock::new(0x370, 0x3FF)));
    let impostor = Category::new("Greek", UnicodeCategory::Block(UnicodeBlock::new(0x41, 0x5A)));
    let latin = Category::new("Latin", UnicodeCategory::Block(UnicodeBlock::new(0x41, 0x5A)));
    assert_eq!(greek.name, "Greek");
    assert_eq!(greek.id(), impostor.id());
    assert_eq!(greek.id(), CategoryId::new("Greek"));
    assert_ne!(greek.id(), latin.id());
    assert_ne!(CategoryId::new("Greek"), CategoryId::new("greek"));
    assert_ne!(CategoryId::new(""), CategoryId::new(" "));
}

#[test]
fn the_identity_is_the_hash_that_egui_gives() {
    for name in ["", "Greek", "Recently Used", "Collection", "Search", "__none__", "Box Drawing"] {
        assert_eq!(CategoryId::new(name).value, egui::Id::new(name).value());
        assert_eq!(CategoryId::new(name).value, egui::Id::new(name.to_string()).value());
    }
}

#[test]
fn the_first_category_of_an_identity_is_found() {
    let categories = vec![
        Category::new("Latin", UnicodeCategory::default()),
        Category::new("Greek", UnicodeCategory::default()),
        Category::new("Latin", UnicodeCategory::default()),
    ];
    assert_eq!(find_category(&categories, CategoryId::new("Latin")), Some(0));
    assert_eq!(find_category(&categories, CategoryId::new("Greek")), Some(1));
    assert_eq!(find_category(&categories, CategoryId::new("Arabic")), None);
    assert_eq!(find_category(&[], CategoryId::new("Latin")), None);
}
