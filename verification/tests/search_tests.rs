use glyphana::categories::CategoryId;
use glyphana::index::CharacterIndex;
use glyphana::search::{SearchEngine, SearchParams};

fn create_test_cache() -> CharacterIndex {
    let mut cache = CharacterIndex::new();

    cache.insert('A', "Latin Capital Letter A".to_string());
    cache.insert('a', "Latin Small Letter a".to_string());
    cache.insert('-', "Hyphen Minus".to_string());
    cache.insert('‐', "Hyphen".to_string());
    cache.insert('\u{00AD}', "Soft Hyphen".to_string());
    cache.insert('—', "Em Dash".to_string());
    cache.insert('–', "En Dash".to_string());
    cache.insert('α', "Greek Small Letter Alpha".to_string());
    cache.insert('Α', "Greek Capital Letter Alpha".to_string());
    cache.insert('β', "Greek Small Letter Beta".to_string());
    cache.insert('😀', "Grinning Face".to_string());
    cache.insert('🔍', "Magnifying Glass Tilted Left".to_string());
    cache.insert(' ', "Space".to_string());
    cache.insert('\u{00A0}', "No-break Space".to_string());
    cache.insert('1', "Digit One".to_string());
    cache.insert('2', "Digit Two".to_string());
    cache.insert('+', "Plus Sign".to_string());
    cache.insert('=', "Equals Sign".to_string());

    cache
}

#[test]
fn test_empty_search_returns_all() {
    let cache = create_test_cache();
    let params = SearchParams::new("".to_string(), false, false, false);

    let results = SearchEngine::search(&params, &cache, &[], CategoryId::new("test"));

    assert_eq!(results.len(), cache.len());
    assert_eq!(results, cache);
}

#[test]
fn test_single_character_exact_match() {
    let cache = create_test_cache();
    let params = SearchParams::new("A".to_string(), false, false, true);

    let results = SearchEngine::search(&params, &cache, &[], CategoryId::new("test"));

    assert_eq!(results.len(), 1);
    assert!(results.contains_key(&'A'));
}

#[test]
fn test_case_insensitive_character_search() {
    let cache = create_test_cache();
    let params = SearchParams::new("a".to_string(), false, false, false);

    let results = SearchEngine::search(&params, &cache, &[], CategoryId::new("test"));

    // Should find both 'A' and 'a' when case insensitive
    assert!(results.contains_key(&'A'));
    assert!(results.contains_key(&'a'));
}

#[test]
fn test_case_sensitive_character_search() {
    let cache = create_test_cache();
    let params = SearchParams::new("a".to_string(), false, false, true);

    let results = SearchEngine::search(&params, &cache, &[], CategoryId::new("test"));

    // Should only find 'a' when case sensitive
    assert!(!results.contains_key(&'A'));
    assert!(results.contains_key(&'a'));
}

#[test]
fn test_search_by_name_substring() {
    let cache = create_test_cache();
    let params = SearchParams::new("hyphen".to_string(), false, true, false);

    let results = SearchEngine::search(&params, &cache, &[], CategoryId::new("test"));

    // Should find all hyphen-related characters
    assert!(results.contains_key(&'-')); // Hyphen Minus
    assert!(results.contains_key(&'‐')); // Hyphen
    assert!(results.contains_key(&'\u{00AD}')); // Soft Hyphen
    assert!(!results.contains_key(&'—')); // Em Dash (doesn't contain "hyphen")
}

#[test]
fn test_search_by_name_case_sensitive() {
    let cache = create_test_cache();

    // Test with correct case "Greek"
    let params = SearchParams::new("Greek".to_string(), false, true, true);
    let results = SearchEngine::search(&params, &cache, &[], CategoryId::new("test"));

    // Should find Greek letters (name contains "Greek")
    assert!(results.contains_key(&'α'));
    assert!(results.contains_key(&'Α'));
    assert!(results.contains_key(&'β'));

    // Test that lowercase "greek" doesn't match when case sensitive
    let params_lower = SearchParams::new("greek".to_string(), false, true, true);
    let results_lower =
        SearchEngine::search(&params_lower, &cache, &[], CategoryId::new("test"));
    assert_eq!(results_lower.len(), 0);
}

#[test]
fn test_search_by_name_case_insensitive() {
    let cache = create_test_cache();
    let params = SearchParams::new("greek".to_string(), false, true, false);

    let results = SearchEngine::search(&params, &cache, &[], CategoryId::new("test"));

    // Should find Greek letters regardless of case
    assert!(results.contains_key(&'α'));
    assert!(results.contains_key(&'Α'));
    assert!(results.contains_key(&'β'));
}

#[test]
fn test_hex_code_search() {
    let cache = create_test_cache();

    // Test U+ format
    let params = SearchParams::new("U+0041".to_string(), false, false, false);
    let results = SearchEngine::search(&params, &cache, &[], CategoryId::new("test"));
    assert_eq!(results.len(), 1);
    assert!(results.contains_key(&'A'));

    // Test 0x format
    let params = SearchParams::new("0x41".to_string(), false, false, false);
    let results = SearchEngine::search(&params, &cache, &[], CategoryId::new("test"));
    assert_eq!(results.len(), 1);
    assert!(results.contains_key(&'A'));

    // Test plain hex
    let params = SearchParams::new("41".to_string(), false, false, false);
    let results = SearchEngine::search(&params, &cache, &[], CategoryId::new("test"));
    assert_eq!(results.len(), 1);
    assert!(results.contains_key(&'A'));
}

#[test]
fn test_decimal_code_search() {
    let cache = create_test_cache();

    // 65 is the decimal code for 'A'
    let params = SearchParams::new("65".to_string(), false, false, false);
    let results = SearchEngine::search(&params, &cache, &[], CategoryId::new("test"));

    assert_eq!(results.len(), 1);
    assert!(results.contains_key(&'A'));
}

#[test]
fn test_multiple_word_search() {
    let cache = create_test_cache();
    let params = SearchParams::new("latin letter".to_string(), false, true, false);

    let results = SearchEngine::search(&params, &cache, &[], CategoryId::new("test"));

    // Should find Latin letters
    assert!(results.contains_key(&'A'));
    assert!(results.contains_key(&'a'));
    // Should not find Greek letters or other characters
    assert!(!results.contains_key(&'α'));
    assert!(!results.contains_key(&'-'));
}

#[test]
fn test_fuzzy_search_with_typo() {
    let cache = create_test_cache();
    // "hypen" is 1 edit away from "hyphen" (missing 'h')
    let params = SearchParams::new("hypen".to_string(), false, true, false);

    let results = SearchEngine::search(&params, &cache, &[], CategoryId::new("test"));

    // Should still find hyphen-related characters due to fuzzy matching
    assert!(results.contains_key(&'-')); // Hyphen Minus
    assert!(results.contains_key(&'‐')); // Hyphen
    assert!(results.contains_key(&'\u{00AD}')); // Soft Hyphen
}

#[test]
fn test_search_emoji() {
    let cache = create_test_cache();

    // Search by emoji character
    let params = SearchParams::new("😀".to_string(), false, false, false);
    let results = SearchEngine::search(&params, &cache, &[], CategoryId::new("test"));
    assert_eq!(results.len(), 1);
    assert!(results.contains_key(&'😀'));

    // Search by emoji name
    let params = SearchParams::new("grinning".to_string(), false, true, false);
    let results = SearchEngine::search(&params, &cache, &[], CategoryId::new("test"));
    assert!(results.contains_key(&'😀'));
}

#[test]
fn test_search_special_characters() {
    let cache = create_test_cache();

    // Search for space
    let params = SearchParams::new("space".to_string(), false, true, false);
    let results = SearchEngine::search(&params, &cache, &[], CategoryId::new("test"));

    assert!(results.contains_key(&' '));
    assert!(results.contains_key(&'\u{00A0}')); // No-break Space
}

#[test]
fn test_search_with_name_disabled() {
    let cache = create_test_cache();

    // With search_name disabled, "hyphen" names no character of the cache
    let params = SearchParams::new("hyphen".to_string(), false, false, false);
    let results = SearchEngine::search(&params, &cache, &[], CategoryId::new("test"));

    assert_eq!(results.len(), 0);
}

#[test]
fn test_search_partial_word_match() {
    let cache = create_test_cache();

    // Search for "mag" should find "Magnifying Glass"
    let params = SearchParams::new("mag".to_string(), false, true, false);
    let results = SearchEngine::search(&params, &cache, &[], CategoryId::new("test"));

    assert!(results.contains_key(&'🔍'));
}

#[test]
fn test_combined_flags() {
    let cache = create_test_cache();

    // Case sensitive + search names for "latin" (lowercase)
    let params = SearchParams::new("latin".to_string(), false, true, true);
    let results = SearchEngine::search(&params, &cache, &[], CategoryId::new("test"));
    assert_eq!(results.len(), 0); // "latin" lowercase won't match "Latin" in names

    // Case sensitive + search names for "Latin" (correct case)
    let params = SearchParams::new("Latin".to_string(), false, true, true);
    let results = SearchEngine::search(&params, &cache, &[], CategoryId::new("test"));
    assert_eq!(results.len(), 2); // Should find 'A' and 'a' (both have "Latin" in name)
    assert!(results.contains_key(&'A'));
    assert!(results.contains_key(&'a'));
}

#[test]
fn test_search_mathematical_symbols() {
    let cache = create_test_cache();

    // Search for plus sign
    let params = SearchParams::new("+".to_string(), false, false, false);
    let results = SearchEngine::search(&params, &cache, &[], CategoryId::new("test"));
    assert!(results.contains_key(&'+'));

    // Search by name
    let params = SearchParams::new("plus".to_string(), false, true, false);
    let results = SearchEngine::search(&params, &cache, &[], CategoryId::new("test"));
    assert!(results.contains_key(&'+'));
}
