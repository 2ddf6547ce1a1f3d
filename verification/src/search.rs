//! The search engine: from a query and the character index to the table of results.
//!
//! A search never changes the index. Its result is a table of entries of the
//! index, in the order of the index.

use crate::categories::{
    find_category, selected_position, Category, CategoryId, CharacterInspector,
};
use crate::distance::{edit_distance, levenshtein};
use crate::index::{
    entries, lemma_entries_push, lemma_filter_ascending, lookup, CharacterIndex, CharacterRecord,
    Entry,
};
use crate::query::{classify, classify_query, hex_code, parse_hex_notation, QueryKind};
use crate::seqs::{lemma_filter_agree, lemma_filter_empty, lemma_filter_take_next};
use crate::text::{
    char_to_string, contains_str, is_substring, lowercase, lowercase_of, singleton, split_words,
    starts_with_str, strings, to_chars, trim, trimmed, whitespace_words,
};
use vstd::prelude::*;

verus! {

/// The largest edit distance at which a word of a name still matches a term.
pub const MAX_EDIT_DISTANCE: usize = 2;

/// The shortest word or term that is compared by edit distance; shorter ones match by prefix.
pub const MIN_FUZZY_LENGTH: usize = 3;

/// What to search for, and how.
pub struct SearchParams {
    pub text: String,
    pub split_text: Vec<String>,
    pub split_text_lower: Vec<String>,
    pub search_only_categories: bool,
    pub search_name: bool,
    pub case_sensitive: bool,
}

/// The parameters of a search as plain values.
pub struct Params {
    pub text: Seq<char>,
    pub split_text: Seq<Seq<char>>,
    pub split_text_lower: Seq<Seq<char>>,
    pub search_only_categories: bool,
    pub search_name: bool,
    pub case_sensitive: bool,
}

impl Params {
    /// The parameters for a query text: its whitespace-separated terms, and,
    /// unless case matters, the terms in lowercase.
    pub open spec fn of(
        text: Seq<char>,
        search_only_categories: bool,
        search_name: bool,
        case_sensitive: bool,
    ) -> Params {
        Params {
            text,
            split_text: whitespace_words(text),
            split_text_lower: if case_sensitive {
                Seq::empty()
            } else {
                whitespace_words(text).map_values(|w: Seq<char>| lowercase_of(w))
            },
            search_only_categories,
            search_name,
            case_sensitive,
        }
    }
}

impl View for SearchParams {
    type V = Params;

    open spec fn view(&self) -> Params {
        Params {
            text: self.text@,
            split_text: strings(self.split_text@),
            split_text_lower: strings(self.split_text_lower@),
            search_only_categories: self.search_only_categories,
            search_name: self.search_name,
            case_sensitive: self.case_sensitive,
        }
    }
}

/// The lowercase form of each word.
fn lowercase_all(words: &Vec<String>) -> (r: Vec<String>)
    ensures
        strings(r@) == strings(words@).map_values(|w: Seq<char>| lowercase_of(w)),
{
    let mut lowered: Vec<String> = Vec::new();
    let mut i: usize = 0;
    while i < words.len()
        invariant
            i <= words.len(),
            lowered.len() == i,
            forall|j: int| 0 <= j < i ==> (#[trigger] lowered@[j])@ == lowercase_of(words@[j]@),
        decreases words.len() - i,
    {
        lowered.push(lowercase(words[i].as_str()));
        i += 1;
    }
    assert(strings(lowered@) =~= strings(words@).map_values(|w: Seq<char>| lowercase_of(w)));
    lowered
}

impl SearchParams {
    /// The parameters for a query text.
    pub fn new(
        text: String,
        search_only_categories: bool,
        search_name: bool,
        case_sensitive: bool,
    ) -> (r: Self)
        ensures
            r@ == Params::of(text@, search_only_categories, search_name, case_sensitive),
    {
        let split_text = split_words(text.as_str());
        let split_text_lower = if !case_sensitive {
            lowercase_all(&split_text)
        } else {
            Vec::new()
        };
        let r = SearchParams {
            text,
            split_text,
            split_text_lower,
            search_only_categories,
            search_name,
            case_sensitive,
        };
        assert(r@.split_text_lower =~= Params::of(
            r.text@,
            search_only_categories,
            search_name,
            case_sensitive,
        ).split_text_lower);
        r
    }
}

/// Whether a word of a name matches a term. A word or term of fewer than
/// three characters matches only where the word begins with the term. Longer
/// ones match within the edit distance 2; but where case matters, a pair
/// that differs in nothing but case does not match.
pub open spec fn word_matches(word: Seq<char>, term: Seq<char>, case_sensitive: bool) -> bool {
    if word.len() < MIN_FUZZY_LENGTH || term.len() < MIN_FUZZY_LENGTH {
        term.is_prefix_of(word)
    } else if case_sensitive && levenshtein(word, term) > 0 && lowercase_of(word) == lowercase_of(
        term,
    ) {
        false
    } else {
        levenshtein(word, term) <= MAX_EDIT_DISTANCE
    }
}

/// Whether one of the words matches the term.
pub open spec fn some_word_matches(
    words: Seq<Seq<char>>,
    term: Seq<char>,
    case_sensitive: bool,
) -> bool {
    exists|i: int| 0 <= i < words.len() && word_matches(#[trigger] words[i], term, case_sensitive)
}

/// Whether a name matches a term: the term occurs in the name, or one of the
/// whitespace-separated words of the name matches it.
pub open spec fn term_matches(name: Seq<char>, term: Seq<char>, case_sensitive: bool) -> bool {
    is_substring(term, name) || some_word_matches(whitespace_words(name), term, case_sensitive)
}

/// Whether a name matches every term.
pub open spec fn all_terms_match(
    name: Seq<char>,
    terms: Seq<Seq<char>>,
    case_sensitive: bool,
) -> bool {
    forall|i: int| 0 <= i < terms.len() ==> term_matches(name, #[trigger] terms[i], case_sensitive)
}

/// Whether an entry passes the fuzzy search on names. Unless case matters,
/// the name and the terms are compared in lowercase.
pub open spec fn fuzzy_matches(p: Params, entry: Entry) -> bool {
    if p.case_sensitive {
        all_terms_match(entry.1, p.split_text, true)
    } else {
        all_terms_match(lowercase_of(entry.1), p.split_text_lower, false)
    }
}

/// Whether the character, as a string of its own, occurs in the query;
/// unless case matters, both in lowercase.
pub open spec fn char_in_text(p: Params, c: char) -> bool {
    if p.case_sensitive {
        is_substring(singleton(c), p.text)
    } else {
        is_substring(lowercase_of(singleton(c)), lowercase_of(p.text))
    }
}

/// Whether names are searched and the query occurs in the name; unless case
/// matters, both in lowercase.
pub open spec fn text_in_name(p: Params, name: Seq<char>) -> bool {
    p.search_name && if p.case_sensitive {
        is_substring(p.text, name)
    } else {
        is_substring(lowercase_of(p.text), lowercase_of(name))
    }
}

/// Whether `c` is confusable with a character of the query.
pub open spec fn confusable_with_text(
    confusable: spec_fn(char, char) -> bool,
    text: Seq<char>,
    c: char,
) -> bool {
    exists|i: int| 0 <= i < text.len() && confusable(c, #[trigger] text[i])
}

/// Whether an entry passes the search by character: the character occurs in
/// the query, or the query occurs in the name where names are searched, or
/// the character is confusable with one of the query.
pub open spec fn character_matches(
    p: Params,
    confusable: spec_fn(char, char) -> bool,
    entry: Entry,
) -> bool {
    char_in_text(p, entry.0) || text_in_name(p, entry.1) || confusable_with_text(
        confusable,
        p.text,
        entry.0,
    )
}

/// The relation that holds of no pair: searching without a notion of confusable characters.
pub open spec fn no_confusables() -> spec_fn(char, char) -> bool {
    |a: char, b: char| false
}

/// The entries of `table` that pass the fuzzy search on names.
pub open spec fn fuzzy_results(p: Params, table: Seq<Entry>) -> Seq<Entry> {
    table.filter(|entry: Entry| fuzzy_matches(p, entry))
}

/// The entries of `table` that pass the search by character. A query
/// without a term filters nothing out.
pub open spec fn skeleton_results(
    p: Params,
    confusable: spec_fn(char, char) -> bool,
    table: Seq<Entry>,
) -> Seq<Entry> {
    if p.split_text.len() == 0 {
        table
    } else {
        table.filter(|entry: Entry| character_matches(p, confusable, entry))
    }
}

/// The entries of `table` that the text filters let through: the fuzzy
/// search where names are searched and the query has a term, else the search
/// by character.
pub open spec fn filtered_results(
    p: Params,
    confusable: spec_fn(char, char) -> bool,
    table: Seq<Entry>,
) -> Seq<Entry> {
    if p.search_name && p.split_text.len() > 0 {
        fuzzy_results(p, table)
    } else {
        skeleton_results(p, confusable, table)
    }
}

/// The entries of `table` whose character belongs to the first category
/// with the identity `selected`; the whole table where there is none.
pub open spec fn category_results(
    table: Seq<Entry>,
    categories: Seq<Category>,
    selected: CategoryId,
) -> Seq<Entry> {
    match selected_position(categories, selected) {
        Some(i) => table.filter(|entry: Entry| categories[i].unicode_category.spec_contains(entry.0)),
        None => table,
    }
}

/// The entries of `table` that belong to `block`.
pub open spec fn block_results(table: Seq<Entry>, block: crate::blocks::UnicodeBlock) -> Seq<
    Entry,
> {
    table.filter(|entry: Entry| block.holds(entry.0))
}

/// The table that holds the entry of `c` alone.
pub open spec fn single_result(table: Seq<Entry>, c: char) -> Seq<Entry> {
    seq![(c, lookup(table, c)->0)]
}

/// What a query gives without any filtering, if it is no free text: the one
/// entry of the character it names, or the entries of the block that stands
/// in for that character.
pub open spec fn special_results(text: Seq<char>, table: Seq<Entry>) -> Option<Seq<Entry>> {
    match classify(text, table) {
        QueryKind::LiteralChar(c) => Some(single_result(table, c)),
        QueryKind::CodepointNotation(c) => Some(single_result(table, c)),
        QueryKind::Block(block) => Some(block_results(table, block)),
        QueryKind::FreeText => None,
    }
}

/// The result of a search. The empty query gives the whole table. A query
/// that names a character gives that character, whatever the categories and
/// flags are. Any other query filters the table, restricted to the selected
/// category first where the search is limited to categories.
pub open spec fn search_results(
    p: Params,
    confusable: spec_fn(char, char) -> bool,
    table: Seq<Entry>,
    categories: Seq<Category>,
    selected: CategoryId,
) -> Seq<Entry> {
    if p.text.len() == 0 {
        table
    } else if special_results(p.text, table) is Some {
        special_results(p.text, table)->0
    } else if p.search_only_categories {
        filtered_results(p, confusable, category_results(table, categories, selected))
    } else {
        filtered_results(p, confusable, table)
    }
}

/// Whether a function decides a relation on pairs of characters: it accepts
/// every pair, and no pair gets both answers.
pub open spec fn decides<F: Fn(char, char) -> bool>(f: &F) -> bool {
    forall|a: char, b: char|
        #![trigger f.requires((a, b))]
        f.requires((a, b)) && !(f.ensures((a, b), true) && f.ensures((a, b), false))
}

/// The relation that a function on pairs of characters decides.
pub open spec fn relation_of<F: Fn(char, char) -> bool>(f: &F) -> spec_fn(char, char) -> bool {
    |a: char, b: char| f.ensures((a, b), true)
}

/// Whether a word of a name matches a term.
fn word_matches_term(word: &str, term: &str, case_sensitive: bool) -> (r: bool)
    ensures
        r == word_matches(word@, term@, case_sensitive),
{
    if word.unicode_len() < MIN_FUZZY_LENGTH || term.unicode_len() < MIN_FUZZY_LENGTH {
        starts_with_str(word, term)
    } else {
        let distance = edit_distance(word, term);
        if case_sensitive && distance > 0 && lowercase(word) == lowercase(term) {
            false
        } else {
            distance <= MAX_EDIT_DISTANCE
        }
    }
}

/// Whether a name, given with its words, matches a term.
fn name_matches_term(name: &str, words: &Vec<String>, term: &str, case_sensitive: bool) -> (r:
    bool)
    requires
        strings(words@) == whitespace_words(name@),
    ensures
        r == term_matches(name@, term@, case_sensitive),
{
    if contains_str(name, term) {
        return true;
    }
    let mut i: usize = 0;
    while i < words.len()
        invariant
            i <= words.len(),
            strings(words@) == whitespace_words(name@),
            forall|j: int|
                0 <= j < i ==> !word_matches(
                    #[trigger] strings(words@)[j],
                    term@,
                    case_sensitive,
                ),
        decreases words.len() - i,
    {
        if word_matches_term(words[i].as_str(), term, case_sensitive) {
            assert(word_matches(strings(words@)[i as int], term@, case_sensitive));
            return true;
        }
        i += 1;
    }
    false
}

/// Whether a name matches every term.
fn name_matches_terms(name: &str, terms: &Vec<String>, case_sensitive: bool) -> (r: bool)
    ensures
        r == all_terms_match(name@, strings(terms@), case_sensitive),
{
    let words = split_words(name);
    let mut i: usize = 0;
    while i < terms.len()
        invariant
            i <= terms.len(),
            strings(words@) == whitespace_words(name@),
            forall|j: int|
                0 <= j < i ==> term_matches(name@, #[trigger] strings(terms@)[j], case_sensitive),
        decreases terms.len() - i,
    {
        if !name_matches_term(name, &words, terms[i].as_str(), case_sensitive) {
            assert(!term_matches(name@, strings(terms@)[i as int], case_sensitive));
            return false;
        }
        i += 1;
    }
    true
}

/// Whether a record passes the fuzzy search on names.
fn record_matches_fuzzy(record: &CharacterRecord, params: &SearchParams) -> (r: bool)
    ensures
        r == fuzzy_matches(params@, record@),
{
    if params.case_sensitive {
        name_matches_terms(record.name.as_str(), &params.split_text, true)
    } else {
        let lowered = lowercase(record.name.as_str());
        name_matches_terms(lowered.as_str(), &params.split_text_lower, false)
    }
}

/// Whether `c` is confusable with a character of the query.
fn confusable_with_any<F: Fn(char, char) -> bool>(c: char, query: &Vec<char>, confusable: &F) -> (r:
    bool)
    requires
        decides(confusable),
    ensures
        r == confusable_with_text(relation_of(confusable), query@, c),
{
    let mut i: usize = 0;
    while i < query.len()
        invariant
            i <= query.len(),
            decides(confusable),
            forall|j: int| 0 <= j < i ==> !relation_of(confusable)(c, #[trigger] query@[j]),
        decreases query.len() - i,
    {
        assert(confusable.requires((c, query@[i as int])));
        if confusable(c, query[i]) {
            assert(relation_of(confusable)(c, query@[i as int]));
            return true;
        }
        i += 1;
    }
    false
}

/// Whether a record passes the search by character. `folded_text` is the
/// query in lowercase, `query` its characters.
fn record_matches_character<F: Fn(char, char) -> bool>(
    record: &CharacterRecord,
    params: &SearchParams,
    folded_text: &str,
    query: &Vec<char>,
    confusable: &F,
) -> (r: bool)
    requires
        decides(confusable),
        folded_text@ == lowercase_of(params.text@),
        query@ == params.text@,
    ensures
        r == character_matches(params@, relation_of(confusable), record@),
{
    let character = char_to_string(record.codepoint);
    let in_text = if params.case_sensitive {
        contains_str(params.text.as_str(), character.as_str())
    } else {
        contains_str(folded_text, lowercase(character.as_str()).as_str())
    };
    if in_text {
        return true;
    }
    let in_name = if !params.search_name {
        false
    } else if params.case_sensitive {
        contains_str(record.name.as_str(), params.text.as_str())
    } else {
        contains_str(lowercase(record.name.as_str()).as_str(), folded_text)
    };
    if in_name {
        return true;
    }
    confusable_with_any(record.codepoint, query, confusable)
}

/// The search engine. It holds no state: every search is a fresh pass over the index.
pub struct SearchEngine;

impl SearchEngine {
    /// Searches the index without a notion of confusable characters.
    pub fn search(
        params: &SearchParams,
        full_cache: &CharacterIndex,
        categories: &[Category],
        selected_category_id: CategoryId,
    ) -> (r: CharacterIndex)
        ensures
            r@ == search_results(
                params@,
                no_confusables(),
                full_cache@,
                categories@,
                selected_category_id,
            ),
    {
        let never = |a: char, b: char| -> (r: bool)
            ensures
                !r,
            { false };
        let r = Self::search_with_confusables(
            params,
            full_cache,
            categories,
            selected_category_id,
            &never,
        );
        proof {
            lemma_search_agrees(
                params@,
                relation_of(&never),
                no_confusables(),
                full_cache@,
                categories@,
                selected_category_id,
            );
        }
        r
    }

    /// Searches the index; `confusable` tells which pairs of characters look alike.
    pub fn search_with_confusables<F: Fn(char, char) -> bool>(
        params: &SearchParams,
        full_cache: &CharacterIndex,
        categories: &[Category],
        selected_category_id: CategoryId,
        confusable: &F,
    ) -> (r: CharacterIndex)
        requires
            decides(confusable),
        ensures
            r@ == search_results(
                params@,
                relation_of(confusable),
                full_cache@,
                categories@,
                selected_category_id,
            ),
    {
        if params.text.as_str().is_empty() {
            return full_cache.clone();
        }
        if let Some(results) = Self::search_special_patterns(params.text.as_str(), full_cache) {
            return results;
        }
        let base_cache = if params.search_only_categories {
            Self::filter_by_categories(full_cache, categories, selected_category_id)
        } else {
            full_cache.clone()
        };
        Self::apply_search_filters_with(base_cache, params, confusable)
    }

    /// What the query gives without filtering, if it names a character.
    pub fn search_special_patterns(text: &str, full_cache: &CharacterIndex) -> (r: Option<
        CharacterIndex,
    >)
        ensures
            match r {
                Some(results) => special_results(text@, full_cache@) == Some(results@),
                None => special_results(text@, full_cache@) is None,
            },
    {
        match classify_query(text, full_cache) {
            QueryKind::LiteralChar(c) => Some(Self::single_char_result(full_cache, c)),
            QueryKind::CodepointNotation(c) => Some(Self::single_char_result(full_cache, c)),
            QueryKind::Block(block) => {
                let records = full_cache.all();
                let ghost pred = |entry: Entry| block.holds(entry.0);
                let mut kept: Vec<CharacterRecord> = Vec::new();
                let mut i: usize = 0;
                proof {
                    lemma_filter_empty(pred);
                    assert(full_cache@.take(0) =~= Seq::<Entry>::empty());
                }
                while i < records.len()
                    invariant
                        i <= records.len(),
                        entries(records@) == full_cache@,
                        pred == (|entry: Entry| block.holds(entry.0)),
                        entries(kept@) == full_cache@.take(i as int).filter(pred),
                    decreases records.len() - i,
                {
                    proof {
                        lemma_filter_take_next(full_cache@, i as int, pred);
                    }
                    let code: u32 = records[i].codepoint as u32;
                    if block.start <= code && code <= block.end {
                        proof {
                            lemma_entries_push(kept@, records@[i as int]);
                        }
                        kept.push(records[i].clone());
                    }
                    i += 1;
                }
                proof {
                    assert(full_cache@.take(i as int) =~= full_cache@);
                    lemma_filter_ascending(full_cache@, pred);
                }
                Some(CharacterIndex::from_ascending(kept))
            },
            QueryKind::FreeText => None,
        }
    }

    /// The index that holds the record of `c` alone.
    fn single_char_result(full_cache: &CharacterIndex, c: char) -> (r: CharacterIndex)
        requires
            crate::index::has_key(full_cache@, c),
        ensures
            r@ == single_result(full_cache@, c),
    {
        let mut kept: Vec<CharacterRecord> = Vec::new();
        match full_cache.get(&c) {
            Some(name) => {
                kept.push(CharacterRecord { codepoint: c, name: name.clone() });
            },
            None => {},
        }
        assert(entries(kept@) =~= single_result(full_cache@, c));
        CharacterIndex::from_ascending(kept)
    }

    /// Reads a query as hexadecimal codepoint notation, after trimming and lowercasing it.
    pub fn parse_hex_code(text: &str) -> (r: Option<char>)
        ensures
            r == hex_code(lowercase_of(trimmed(text@))),
    {
        let cleaned = lowercase(trim(text).as_str());
        parse_hex_notation(cleaned.as_str())
    }

    /// The records whose character belongs to the selected category.
    pub fn filter_by_categories(
        cache: &CharacterIndex,
        categories: &[Category],
        selected_id: CategoryId,
    ) -> (r: CharacterIndex)
        ensures
            r@ == category_results(cache@, categories@, selected_id),
    {
        match find_category(categories, selected_id) {
            Some(position) => {
                let category = &categories[position];
                let records = cache.all();
                let ghost pred = |entry: Entry|
                    categories@[position as int].unicode_category.spec_contains(entry.0);
                let mut kept: Vec<CharacterRecord> = Vec::new();
                let mut i: usize = 0;
                proof {
                    lemma_filter_empty(pred);
                    assert(cache@.take(0) =~= Seq::<Entry>::empty());
                }
                while i < records.len()
                    invariant
                        i <= records.len(),
                        entries(records@) == cache@,
                        *category == categories@[position as int],
                        pred == (|entry: Entry|
                            categories@[position as int].unicode_category.spec_contains(entry.0)),
                        entries(kept@) == cache@.take(i as int).filter(pred),
                    decreases records.len() - i,
                {
                    proof {
                        lemma_filter_take_next(cache@, i as int, pred);
                    }
                    if category.unicode_category.contains(records[i].codepoint) {
                        proof {
                            lemma_entries_push(kept@, records@[i as int]);
                        }
                        kept.push(records[i].clone());
                    }
                    i += 1;
                }
                proof {
                    assert(cache@.take(i as int) =~= cache@);
                    lemma_filter_ascending(cache@, pred);
                }
                CharacterIndex::from_ascending(kept)
            },
            None => cache.clone(),
        }
    }

    /// Filters by the query text, without a notion of confusable characters.
    pub fn apply_search_filters(cache: CharacterIndex, params: &SearchParams) -> (r:
        CharacterIndex)
        ensures
            r@ == filtered_results(params@, no_confusables(), cache@),
    {
        let never = |a: char, b: char| -> (r: bool)
            ensures
                !r,
            { false };
        let ghost table = cache@;
        let r = Self::apply_search_filters_with(cache, params, &never);
        proof {
            lemma_filtered_agrees(params@, relation_of(&never), no_confusables(), table);
        }
        r
    }

    /// Filters by the query text: the fuzzy search on names where names are
    /// searched and the query has a term, else the search by character.
    pub fn apply_search_filters_with<F: Fn(char, char) -> bool>(
        cache: CharacterIndex,
        params: &SearchParams,
        confusable: &F,
    ) -> (r: CharacterIndex)
        requires
            decides(confusable),
        ensures
            r@ == filtered_results(params@, relation_of(confusable), cache@),
    {
        if params.search_name && params.split_text.len() > 0 {
            Self::fuzzy_search(cache, params)
        } else {
            Self::skeleton_search_with(cache, params, confusable)
        }
    }

    /// The records whose name matches every term of the query.
    pub fn fuzzy_search(cache: CharacterIndex, params: &SearchParams) -> (r: CharacterIndex)
        ensures
            r@ == fuzzy_results(params@, cache@),
    {
        let records = cache.all();
        let ghost pred = |entry: Entry| fuzzy_matches(params@, entry);
        let mut kept: Vec<CharacterRecord> = Vec::new();
        let mut i: usize = 0;
        proof {
            lemma_filter_empty(pred);
            assert(cache@.take(0) =~= Seq::<Entry>::empty());
        }
        while i < records.len()
            invariant
                i <= records.len(),
                entries(records@) == cache@,
                pred == (|entry: Entry| fuzzy_matches(params@, entry)),
                entries(kept@) == cache@.take(i as int).filter(pred),
            decreases records.len() - i,
        {
            proof {
                lemma_filter_take_next(cache@, i as int, pred);
            }
            if record_matches_fuzzy(&records[i], params) {
                proof {
                    lemma_entries_push(kept@, records@[i as int]);
                }
                kept.push(records[i].clone());
            }
            i += 1;
        }
        proof {
            assert(cache@.take(i as int) =~= cache@);
            lemma_filter_ascending(cache@, pred);
        }
        CharacterIndex::from_ascending(kept)
    }

    /// The records whose character occurs in the query, or whose name holds
    /// the query where names are searched.
    pub fn skeleton_search(cache: CharacterIndex, params: &SearchParams) -> (r: CharacterIndex)
        ensures
            r@ == skeleton_results(params@, no_confusables(), cache@),
    {
        let never = |a: char, b: char| -> (r: bool)
            ensures
                !r,
            { false };
        let ghost table = cache@;
        let r = Self::skeleton_search_with(cache, params, &never);
        proof {
            lemma_skeleton_agrees(params@, relation_of(&never), no_confusables(), table);
        }
        r
    }

    /// The records that pass the search by character, with `confusable`
    /// telling which pairs of characters look alike.
    pub fn skeleton_search_with<F: Fn(char, char) -> bool>(
        cache: CharacterIndex,
        params: &SearchParams,
        confusable: &F,
    ) -> (r: CharacterIndex)
        requires
            decides(confusable),
        ensures
            r@ == skeleton_results(params@, relation_of(confusable), cache@),
    {
        if params.split_text.len() == 0 {
            return cache;
        }
        let folded_text = lowercase(params.text.as_str());
        let query = to_chars(params.text.as_str());
        let records = cache.all();
        let ghost pred = |entry: Entry|
            character_matches(params@, relation_of(confusable), entry);
        let mut kept: Vec<CharacterRecord> = Vec::new();
        let mut i: usize = 0;
        proof {
            lemma_filter_empty(pred);
            assert(cache@.take(0) =~= Seq::<Entry>::empty());
        }
        while i < records.len()
            invariant
                i <= records.len(),
                decides(confusable),
                folded_text@ == lowercase_of(params.text@),
                query@ == params.text@,
                entries(records@) == cache@,
                pred == (|entry: Entry|
                    character_matches(params@, relation_of(confusable), entry)),
                entries(kept@) == cache@.take(i as int).filter(pred),
            decreases records.len() - i,
        {
            proof {
                lemma_filter_take_next(cache@, i as int, pred);
            }
            if record_matches_character(
                &records[i],
                params,
                folded_text.as_str(),
                &query,
                confusable,
            ) {
                proof {
                    lemma_entries_push(kept@, records@[i as int]);
                }
                kept.push(records[i].clone());
            }
            i += 1;
        }
        proof {
            assert(cache@.take(i as int) =~= cache@);
            lemma_filter_ascending(cache@, pred);
        }
        CharacterIndex::from_ascending(kept)
    }
}

/// Two relations that agree on every pair give the same search by character.
pub proof fn lemma_skeleton_agrees(
    p: Params,
    f: spec_fn(char, char) -> bool,
    g: spec_fn(char, char) -> bool,
    table: Seq<Entry>,
)
    requires
        forall|a: char, b: char| #[trigger] f(a, b) == g(a, b),
    ensures
        skeleton_results(p, f, table) == skeleton_results(p, g, table),
{
    let pf = |entry: Entry| character_matches(p, f, entry);
    let pg = |entry: Entry| character_matches(p, g, entry);
    assert forall|i: int| 0 <= i < table.len() implies pf(#[trigger] table[i]) == pg(table[i]) by {
        let c = table[i].0;
        assert(confusable_with_text(f, p.text, c) == confusable_with_text(g, p.text, c)) by {
            if confusable_with_text(f, p.text, c) {
                let k = choose|k: int| 0 <= k < p.text.len() && f(c, #[trigger] p.text[k]);
                assert(g(c, p.text[k]));
            }
            if confusable_with_text(g, p.text, c) {
                let k = choose|k: int| 0 <= k < p.text.len() && g(c, #[trigger] p.text[k]);
                assert(f(c, p.text[k]));
            }
        }
    }
    lemma_filter_agree(table, pf, pg);
}

/// Two relations that agree on every pair give the same filtered table.
pub proof fn lemma_filtered_agrees(
    p: Params,
    f: spec_fn(char, char) -> bool,
    g: spec_fn(char, char) -> bool,
    table: Seq<Entry>,
)
    requires
        forall|a: char, b: char| #[trigger] f(a, b) == g(a, b),
    ensures
        filtered_results(p, f, table) == filtered_results(p, g, table),
{
    lemma_skeleton_agrees(p, f, g, table);
}

/// Two relations that agree on every pair give the same search.
pub proof fn lemma_search_agrees(
    p: Params,
    f: spec_fn(char, char) -> bool,
    g: spec_fn(char, char) -> bool,
    table: Seq<Entry>,
    categories: Seq<Category>,
    selected: CategoryId,
)
    requires
        forall|a: char, b: char| #[trigger] f(a, b) == g(a, b),
    ensures
        search_results(p, f, table, categories, selected) == search_results(
            p,
            g,
            table,
            categories,
            selected,
        ),
{
    lemma_filtered_agrees(p, f, g, table);
    lemma_filtered_agrees(p, f, g, category_results(table, categories, selected));
}

} // verus!
