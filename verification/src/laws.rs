//! What holds of every search and of every list of recently used characters.

use crate::categories::{
    lemma_selected_position_is_first, selected_position, Category, CategoryId, CharacterInspector,
};
use crate::index::{ascending, has_key, lemma_filter_ascending, lemma_lookup_at, position_of, Entry};
use crate::distance::{
    lemma_distance_at_least_length_gap, lemma_distance_at_most_mismatches,
    lemma_distance_to_itself, lemma_distance_zero_means_equal, levenshtein, mismatches,
};
use crate::query::{classify, QueryKind};
use crate::search::{
    category_results, character_matches, filtered_results, fuzzy_matches, search_results,
    single_result, special_results, word_matches, Params,
};
use crate::text::lowercase_of;
use crate::selection::{
    lemma_filter_out_absent, lemma_filter_out_at, lemma_touched_well_formed, touched, touched_all,
    SelectionState,
};
use crate::seqs::lemma_filter_members;
use vstd::prelude::*;

verus! {

/// Whether every entry of `part` is an entry of `whole`.
pub open spec fn entries_of(part: Seq<Entry>, whole: Seq<Entry>) -> bool {
    forall|i: int| 0 <= i < part.len() ==> whole.contains(#[trigger] part[i])
}

/// A query that names a character names one of the table.
proof fn lemma_named_character_is_listed(text: Seq<char>, table: Seq<Entry>)
    ensures
        match classify(text, table) {
            QueryKind::LiteralChar(c) => has_key(table, c),
            QueryKind::CodepointNotation(c) => has_key(table, c),
            _ => true,
        },
{
}

/// The one entry of a character of the table is an entry of the table.
proof fn lemma_single_result_is_listed(table: Seq<Entry>, c: char)
    requires
        ascending(table),
        has_key(table, c),
    ensures
        ascending(single_result(table, c)),
        entries_of(single_result(table, c), table),
{
    let k = position_of(table, c);
    assert(0 <= k < table.len() && table[k].0 == c);
    lemma_lookup_at(table, k);
    assert(single_result(table, c)[0] == table[k]);
}

/// What the text filters let through is in order and comes from the table.
proof fn lemma_filtered_keeps_order(
    p: Params,
    confusable: spec_fn(char, char) -> bool,
    table: Seq<Entry>,
)
    requires
        ascending(table),
    ensures
        ascending(filtered_results(p, confusable, table)),
        entries_of(filtered_results(p, confusable, table), table),
{
    lemma_filter_ascending(table, |entry: Entry| fuzzy_matches(p, entry));
    lemma_filter_ascending(table, |entry: Entry| character_matches(p, confusable, entry));
    if !(p.search_name && p.split_text.len() > 0) && p.split_text.len() == 0 {
        assert forall|i: int| 0 <= i < table.len() implies table.contains(#[trigger] table[i]) by {}
    }
}

/// What the selected category lets through is in order and comes from the table.
proof fn lemma_category_keeps_order(
    table: Seq<Entry>,
    categories: Seq<Category>,
    selected: CategoryId,
)
    requires
        ascending(table),
    ensures
        ascending(category_results(table, categories, selected)),
        entries_of(category_results(table, categories, selected), table),
{
    match selected_position(categories, selected) {
        Some(i) => {
            lemma_filter_ascending(
                table,
                |entry: Entry| categories[i].unicode_category.spec_contains(entry.0),
            );
        },
        None => {
            assert forall|i: int| 0 <= i < table.len() implies table.contains(
                #[trigger] table[i],
            ) by {}
        },
    }
}

/// The results keep the order of the index. For any query, every result is
/// an entry of the index, codepoint and name, and the results ascend by
/// codepoint as the index does.
pub proof fn law_results_keep_order(
    p: Params,
    confusable: spec_fn(char, char) -> bool,
    table: Seq<Entry>,
    categories: Seq<Category>,
    selected: CategoryId,
)
    requires
        ascending(table),
    ensures
        ascending(search_results(p, confusable, table, categories, selected)),
        entries_of(search_results(p, confusable, table, categories, selected), table),
{
    let results = search_results(p, confusable, table, categories, selected);
    if p.text.len() == 0 {
        assert forall|i: int| 0 <= i < table.len() implies table.contains(#[trigger] table[i]) by {}
    } else if special_results(p.text, table) is Some {
        lemma_named_character_is_listed(p.text, table);
        match classify(p.text, table) {
            QueryKind::LiteralChar(c) => {
                lemma_single_result_is_listed(table, c);
            },
            QueryKind::CodepointNotation(c) => {
                lemma_single_result_is_listed(table, c);
            },
            QueryKind::Block(block) => {
                lemma_filter_ascending(table, |entry: Entry| block.holds(entry.0));
            },
            QueryKind::FreeText => {},
        }
    } else if p.search_only_categories {
        let within = category_results(table, categories, selected);
        lemma_category_keeps_order(table, categories, selected);
        lemma_filtered_keeps_order(p, confusable, within);
        assert forall|i: int| 0 <= i < results.len() implies table.contains(
            #[trigger] results[i],
        ) by {
            assert(within.contains(results[i]));
            let k = choose|k: int| 0 <= k < within.len() && within[k] == results[i];
            assert(table.contains(within[k]));
        }
    } else {
        lemma_filtered_keeps_order(p, confusable, table);
    }
}

/// The empty query is the identity: its result is the index itself, entry for entry.
pub proof fn law_empty_query_gives_index(
    p: Params,
    confusable: spec_fn(char, char) -> bool,
    table: Seq<Entry>,
    categories: Seq<Category>,
    selected: CategoryId,
)
    requires
        p.text.len() == 0,
    ensures
        search_results(p, confusable, table, categories, selected) == table,
{
}

/// Exact lookup comes first. Where a query names a character of the index,
/// the result is the entry of that character alone, whatever the flags, the
/// categories and the selection are.
pub proof fn law_exact_lookup_comes_first(
    p: Params,
    confusable: spec_fn(char, char) -> bool,
    table: Seq<Entry>,
    categories: Seq<Category>,
    selected: CategoryId,
    c: char,
)
    requires
        p.text.len() > 0,
        classify(p.text, table) == QueryKind::LiteralChar(c) || classify(p.text, table)
            == QueryKind::CodepointNotation(c),
    ensures
        search_results(p, confusable, table, categories, selected) == single_result(table, c),
        has_key(table, c),
{
}

/// A search limited to categories stays in the selected category. Where a
/// free-text query is limited to categories and a category is selected,
/// every result belongs to that category.
pub proof fn law_results_stay_in_category(
    p: Params,
    confusable: spec_fn(char, char) -> bool,
    table: Seq<Entry>,
    categories: Seq<Category>,
    selected: CategoryId,
    position: int,
)
    requires
        p.text.len() > 0,
        classify(p.text, table) == QueryKind::FreeText,
        p.search_only_categories,
        selected_position(categories, selected) == Some(position),
    ensures
        forall|i: int|
            0 <= i < search_results(p, confusable, table, categories, selected).len()
                ==> categories[position].unicode_category.spec_contains(
                (#[trigger] search_results(p, confusable, table, categories, selected)[i]).0,
            ),
{
    lemma_selected_position_is_first(categories, selected);
    let member = |entry: Entry| categories[position].unicode_category.spec_contains(entry.0);
    let within = table.filter(member);
    let results = filtered_results(p, confusable, within);
    assert(search_results(p, confusable, table, categories, selected) == results);
    lemma_filter_members(within, |entry: Entry| fuzzy_matches(p, entry));
    lemma_filter_members(within, |entry: Entry| character_matches(p, confusable, entry));
    lemma_filter_members(table, member);
    assert forall|i: int| 0 <= i < results.len() implies member(#[trigger] results[i]) by {
        if p.search_name && p.split_text.len() > 0 || p.split_text.len() > 0 {
            assert(within.contains(results[i]));
            let k = choose|k: int| 0 <= k < within.len() && within[k] == results[i];
            assert(member(within[k]));
        }
    }
}

/// A word matches the term that equals it, whether or not case matters.
pub proof fn law_equal_word_matches(word: Seq<char>, case_sensitive: bool)
    ensures
        word_matches(word, word, case_sensitive),
{
    lemma_distance_to_itself(word);
    assert(word.subrange(0, word.len() as int) =~= word);
}

/// The fuzzy search tolerates two wrong characters: a word of three
/// characters or more matches a term of its length that differs from it at
/// two positions at most, where case does not matter.
pub proof fn law_two_wrong_characters_match(word: Seq<char>, term: Seq<char>)
    requires
        word.len() == term.len(),
        word.len() >= 3,
        mismatches(word, term) <= 2,
    ensures
        word_matches(word, term, false),
{
    lemma_distance_at_most_mismatches(word, term);
}

/// The fuzzy search does not bridge a gap of three characters: a word and
/// a term of three characters or more whose lengths differ by more than two
/// do not match.
pub proof fn law_length_gap_does_not_match(
    word: Seq<char>,
    term: Seq<char>,
    case_sensitive: bool,
)
    requires
        word.len() >= 3,
        term.len() >= 3,
        word.len() - term.len() > 2 || term.len() - word.len() > 2,
    ensures
        !word_matches(word, term, case_sensitive),
{
    lemma_distance_at_least_length_gap(word, term);
}

/// Where case matters, a word and a term that differ match only if they
/// differ in more than case.
pub proof fn law_case_alone_does_not_match(word: Seq<char>, term: Seq<char>)
    requires
        word.len() >= 3,
        term.len() >= 3,
        word != term,
        lowercase_of(word) == lowercase_of(term),
    ensures
        !word_matches(word, term, true),
{
    if levenshtein(word, term) == 0 {
        lemma_distance_zero_means_equal(word, term);
    }
}

/// Search is selected exactly as long as there is a query to search for:
/// a query that is not empty forces it, and an empty one ends it.
pub proof fn law_search_follows_the_query(
    state: SelectionState,
    text_is_empty: bool,
    fallback: SelectionState,
)
    ensures
        !text_is_empty ==> state.after_query_change(text_is_empty, fallback) is Search,
        text_is_empty ==> !(state.after_query_change(text_is_empty, fallback) is Search),
        text_is_empty && !(state is Search) ==> state.after_query_change(text_is_empty, fallback)
            == state,
{
}

/// A second click on what is selected deselects it, and a click on
/// anything else selects that; the query text plays no part, except that
/// Search cannot be selected without one.
pub proof fn law_click_toggles(state: SelectionState, target: SelectionState, text_is_empty: bool)
    requires
        !(target is Search && text_is_empty),
    ensures
        state == target ==> state.after_click(target, text_is_empty) is Unselected,
        state != target ==> state.after_click(target, text_is_empty) == target,
{
}

/// Using a character that is in the list moves it to the front: the list
/// keeps its length, and the other characters keep their order.
pub proof fn law_reused_moves_to_front(list: Seq<char>, bound: nat, position: int)
    requires
        list.no_duplicates(),
        list.len() <= bound,
        0 <= position < list.len(),
    ensures
        touched(list, bound, list[position]) == seq![list[position]] + list.remove(position),
        touched(list, bound, list[position]).len() == list.len(),
{
    lemma_filter_out_at(list, position, list[position]);
}

/// Using a new character on a full list evicts the character used longest
/// ago, the last of the list, and no other.
pub proof fn law_full_list_evicts_oldest(list: Seq<char>, bound: nat, c: char)
    requires
        list.no_duplicates(),
        list.len() == bound,
        bound >= 1,
        !list.contains(c),
    ensures
        touched(list, bound, c) == seq![c] + list.drop_last(),
{
    lemma_filter_out_absent(list, c);
    assert((seq![c] + list).take(bound as int) =~= seq![c] + list.drop_last());
}

/// Distinct characters, fewer than the bound or as many, fill an empty list
/// in reverse: the last one used stands first.
pub proof fn lemma_distinct_fill_reversed(used: Seq<char>, bound: nat)
    requires
        used.no_duplicates(),
        used.len() <= bound,
    ensures
        touched_all(Seq::empty(), bound, used) == used.reverse(),
    decreases used.len(),
{
    if used.len() == 0 {
        assert(used.reverse() =~= Seq::<char>::empty());
    } else {
        let init = used.drop_last();
        let last = used.last();
        lemma_distinct_fill_reversed(init, bound);
        let list = init.reverse();
        assert(!list.contains(last)) by {
            if list.contains(last) {
                let k = choose|k: int| 0 <= k < list.len() && list[k] == last;
                assert(used[init.len() - 1 - k] == used[used.len() - 1]);
            }
        }
        lemma_filter_out_absent(list, last);
        assert(seq![last] + list =~= used.reverse());
    }
}

/// One character too many evicts the first. After `bound + 1` distinct
/// characters were used on an empty list, the list holds all of them but
/// the one used first, the most recent in front.
pub proof fn law_one_too_many_evicts_first(used: Seq<char>, bound: nat)
    requires
        used.no_duplicates(),
        used.len() == bound + 1,
    ensures
        touched_all(Seq::empty(), bound, used) == used.skip(1).reverse(),
{
    let init = used.drop_last();
    let last = used.last();
    lemma_distinct_fill_reversed(init, bound);
    let list = init.reverse();
    assert(!list.contains(last)) by {
        if list.contains(last) {
            let k = choose|k: int| 0 <= k < list.len() && list[k] == last;
            assert(used[init.len() - 1 - k] == used[used.len() - 1]);
        }
    }
    lemma_filter_out_absent(list, last);
    assert((seq![last] + list).take(bound as int) =~= used.skip(1).reverse());
}

/// Whatever is used, a list stays free of duplicates and within its bound.
pub proof fn law_list_stays_bounded(list: Seq<char>, bound: nat, used: Seq<char>)
    requires
        list.no_duplicates(),
        list.len() <= bound,
    ensures
        touched_all(list, bound, used).no_duplicates(),
        touched_all(list, bound, used).len() <= bound,
    decreases used.len(),
{
    if used.len() > 0 {
        law_list_stays_bounded(list, bound, used.drop_last());
        lemma_touched_well_formed(touched_all(list, bound, used.drop_last()), bound, used.last());
    }
}

} // verus!
