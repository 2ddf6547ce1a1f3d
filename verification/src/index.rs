//! The character index: every displayable codepoint with its name, ordered by codepoint.

use vstd::prelude::*;

verus! {

/// One entry of a table, as a plain value: the codepoint and the characters of its name.
pub type Entry = (char, Seq<char>);

/// A codepoint with its display name.
#[derive(Debug, PartialEq, Eq)]
pub struct CharacterRecord {
    pub codepoint: char,
    pub name: String,
}

impl Clone for CharacterRecord {
    fn clone(&self) -> (r: Self)
        ensures
            r == *self,
    {
        CharacterRecord { codepoint: self.codepoint, name: self.name.clone() }
    }
}

impl View for CharacterRecord {
    type V = Entry;

    open spec fn view(&self) -> Entry {
        (self.codepoint, self.name@)
    }
}

/// The entries that a sequence of records stands for.
pub open spec fn entries(records: Seq<CharacterRecord>) -> Seq<Entry> {
    records.map_values(|r: CharacterRecord| r@)
}

/// Appending a record appends its entry.
pub proof fn lemma_entries_push(records: Seq<CharacterRecord>, record: CharacterRecord)
    ensures
        entries(records.push(record)) == entries(records).push(record@),
{
    assert(entries(records.push(record)) =~= entries(records).push(record@));
}

/// Codepoints strictly increase along the table: it is ordered, and no
/// codepoint occurs twice.
pub open spec fn ascending(s: Seq<Entry>) -> bool {
    forall|i: int, j: int| 0 <= i < j < s.len() ==> (#[trigger] s[i]).0 < (#[trigger] s[j]).0
}

/// Whether the table has an entry for `c`.
pub open spec fn has_key(s: Seq<Entry>, c: char) -> bool {
    exists|i: int| 0 <= i < s.len() && (#[trigger] s[i]).0 == c
}

/// The position of an entry for `c`, where the table has one.
pub open spec fn position_of(s: Seq<Entry>, c: char) -> int {
    choose|i: int| 0 <= i < s.len() && (#[trigger] s[i]).0 == c
}

/// The name the table gives to `c`, if any.
pub open spec fn lookup(s: Seq<Entry>, c: char) -> Option<Seq<char>> {
    if has_key(s, c) {
        Some(s[position_of(s, c)].1)
    } else {
        None
    }
}

/// The table as a map from codepoint to name.
pub open spec fn to_map(s: Seq<Entry>) -> Map<char, Seq<char>> {
    Map::new(|c: char| has_key(s, c), |c: char| s[position_of(s, c)].1)
}

/// In an ascending table the entry at position `i` is the one that `lookup`
/// finds for its codepoint.
pub proof fn lemma_lookup_at(s: Seq<Entry>, i: int)
    requires
        ascending(s),
        0 <= i < s.len(),
    ensures
        has_key(s, s[i].0),
        position_of(s, s[i].0) == i,
        lookup(s, s[i].0) == Some(s[i].1),
{
    let c = s[i].0;
    assert(0 <= i < s.len() && s[i].0 == c);
    let k = position_of(s, c);
    assert(0 <= k < s.len() && s[k].0 == c);
    if k < i {
        assert(s[k].0 < s[i].0);
    } else if i < k {
        assert(s[i].0 < s[k].0);
    }
}

/// Two ascending tables that agree as maps are the same table.
pub proof fn lemma_ascending_unique(a: Seq<Entry>, b: Seq<Entry>)
    requires
        ascending(a),
        ascending(b),
        to_map(a) == to_map(b),
    ensures
        a == b,
    decreases a.len(),
{
    if a.len() == 0 {
        if b.len() > 0 {
            lemma_lookup_at(b, 0);
            assert(to_map(b).dom().contains(b[0].0));
            assert(to_map(a).dom().contains(b[0].0));
            assert(has_key(a, b[0].0));
        }
        assert(a =~= b);
    } else {
        let last = a.last();
        let n = a.len() - 1;
        lemma_lookup_at(a, n);
        assert(to_map(a).dom().contains(last.0));
        assert(to_map(b).dom().contains(last.0));
        assert(has_key(b, last.0));
        let k = position_of(b, last.0);
        assert(0 <= k < b.len() && b[k].0 == last.0);
        // b's entry for the last key of a is b's last entry: a later one
        // would carry a key that a does not have.
        if k < b.len() - 1 {
            let m = b.len() - 1;
            lemma_lookup_at(b, m);
            assert(b[k].0 < b[m].0);
            assert(to_map(b).dom().contains(b[m].0));
            assert(to_map(a).dom().contains(b[m].0));
            assert(has_key(a, b[m].0));
            let q = position_of(a, b[m].0);
            assert(0 <= q < a.len() && a[q].0 == b[m].0);
            if q < n {
                assert(a[q].0 < a[n].0);
            }
            assert(false);
        }
        lemma_lookup_at(b, k);
        assert(to_map(a)[last.0] == last.1);
        assert(to_map(b)[last.0] == b[k].1);
        assert(b.last() == last);
        let a0 = a.drop_last();
        let b0 = b.drop_last();
        assert(ascending(a0));
        assert(ascending(b0));
        assert forall|c: char| has_key(a0, c) == has_key(b0, c) by {
            lemma_drop_last_keys(a, c);
            lemma_drop_last_keys(b, c);
            assert(to_map(a).contains_key(c) == has_key(a, c));
            assert(to_map(b).contains_key(c) == has_key(b, c));
        }
        assert forall|c: char| has_key(a0, c) implies lookup(a0, c) == lookup(b0, c) by {
            lemma_drop_last_keys(a, c);
            lemma_drop_last_keys(b, c);
            assert(to_map(a).contains_key(c) == has_key(a, c));
            assert(to_map(b).contains_key(c) == has_key(b, c));
            assert(to_map(a)[c] == to_map(b)[c]);
        }
        assert(to_map(a0) =~= to_map(b0));
        lemma_ascending_unique(a0, b0);
        assert(a =~= a0.push(last));
        assert(b =~= b0.push(last));
    }
}

/// Dropping the last entry of an ascending table removes its key and leaves
/// every other lookup as it was.
pub proof fn lemma_drop_last_keys(s: Seq<Entry>, c: char)
    requires
        ascending(s),
        s.len() > 0,
    ensures
        has_key(s.drop_last(), c) == (has_key(s, c) && c != s.last().0),
        has_key(s.drop_last(), c) ==> lookup(s.drop_last(), c) == lookup(s, c),
{
    let s0 = s.drop_last();
    let n = s.len() - 1;
    assert(ascending(s0));
    if has_key(s0, c) {
        let k = position_of(s0, c);
        assert(0 <= k < s0.len() && s0[k].0 == c);
        assert(s[k].0 == c);
        assert(s[k].0 < s[n].0);
        lemma_lookup_at(s, k);
        lemma_lookup_at(s0, k);
    }
    if has_key(s, c) && c != s.last().0 {
        let k = position_of(s, c);
        assert(0 <= k < s.len() && s[k].0 == c);
        assert(k < n);
        assert(s0[k].0 == c);
    }
}

/// What passes a filter of an ascending table is an ascending table, and
/// each of its entries is an entry of the table.
pub proof fn lemma_filter_ascending(s: Seq<Entry>, pred: spec_fn(Entry) -> bool)
    requires
        ascending(s),
    ensures
        ascending(s.filter(pred)),
        forall|i: int|
            0 <= i < s.filter(pred).len() ==> s.contains(#[trigger] s.filter(pred)[i]) && pred(
                s.filter(pred)[i],
            ),
    decreases s.len(),
{
    reveal(Seq::filter);
    if s.len() > 0 {
        let init = s.drop_last();
        let last = s.last();
        let n = s.len() - 1;
        lemma_filter_ascending(init, pred);
        let kept = init.filter(pred);
        assert forall|i: int| 0 <= i < kept.len() implies s.contains(#[trigger] kept[i])
            && kept[i].0 < last.0 by {
            let j = choose|j: int| 0 <= j < init.len() && init[j] == kept[i];
            assert(s[j] == kept[i]);
            assert(s[j].0 < s[n].0);
        }
        if pred(last) {
            assert(s[n] == last);
        }
    }
}

/// The character index: one record per codepoint, ascending by codepoint.
#[derive(Debug, PartialEq, Eq)]
pub struct CharacterIndex {
    records: Vec<CharacterRecord>,
}

impl View for CharacterIndex {
    type V = Seq<Entry>;

    closed spec fn view(&self) -> Seq<Entry> {
        entries(self.records@)
    }
}

impl Clone for CharacterIndex {
    fn clone(&self) -> (r: Self)
        ensures
            r@ == self@,
    {
        proof {
            use_type_invariant(self);
        }
        let mut records: Vec<CharacterRecord> = Vec::new();
        let mut i: usize = 0;
        while i < self.records.len()
            invariant
                i <= self.records.len(),
                records@ == self.records@.take(i as int),
            decreases self.records.len() - i,
        {
            records.push(self.records[i].clone());
            i += 1;
        }
        assert(records@ =~= self.records@);
        CharacterIndex { records }
    }
}

impl CharacterIndex {
    /// The invariant of every index: its entries ascend by codepoint.
    #[verifier::type_invariant]
    pub open spec fn wf(&self) -> bool {
        ascending(self@)
    }

    /// The empty index.
    pub fn new() -> (r: Self)
        ensures
            r@ == Seq::<Entry>::empty(),
            r.wf(),
    {
        let r = CharacterIndex { records: Vec::new() };
        assert(r@ =~= Seq::<Entry>::empty());
        r
    }

    /// An index over records that already ascend by codepoint.
    pub fn from_ascending(records: Vec<CharacterRecord>) -> (r: Self)
        requires
            ascending(entries(records@)),
        ensures
            r@ == entries(records@),
            r.wf(),
    {
        CharacterIndex { records }
    }

    /// The number of records.
    pub fn len(&self) -> (n: usize)
        ensures
            n == self@.len(),
    {
        self.records.len()
    }

    /// Whether the index holds no record.
    pub fn is_empty(&self) -> (r: bool)
        ensures
            r == (self@.len() == 0),
    {
        self.records.len() == 0
    }

    /// The full table, ascending by codepoint.
    pub fn all(&self) -> (r: &Vec<CharacterRecord>)
        ensures
            entries(r@) == self@,
            ascending(self@),
    {
        proof {
            use_type_invariant(self);
        }
        &self.records
    }

    /// A copy of every record, ascending by codepoint.
    pub fn to_vec(&self) -> (r: Vec<CharacterRecord>)
        ensures
            entries(r@) == self@,
            ascending(self@),
    {
        proof {
            use_type_invariant(self);
        }
        let mut records: Vec<CharacterRecord> = Vec::new();
        let mut i: usize = 0;
        while i < self.records.len()
            invariant
                i <= self.records.len(),
                records@ == self.records@.take(i as int),
            decreases self.records.len() - i,
        {
            records.push(self.records[i].clone());
            i += 1;
        }
        assert(records@ =~= self.records@);
        records
    }

    /// The first position whose codepoint is not below `c`.
    fn lower_bound(&self, c: char) -> (i: usize)
        ensures
            i <= self@.len(),
            forall|j: int| 0 <= j < i ==> (#[trigger] self@[j]).0 < c,
            forall|j: int| i <= j < self@.len() ==> (#[trigger] self@[j]).0 >= c,
    {
        proof {
            use_type_invariant(self);
        }
        let mut lo: usize = 0;
        let mut hi: usize = self.records.len();
        while lo < hi
            invariant
                lo <= hi <= self.records.len(),
                self@ == entries(self.records@),
                ascending(self@),
                forall|j: int| 0 <= j < lo ==> (#[trigger] self@[j]).0 < c,
                forall|j: int| hi <= j < self@.len() ==> (#[trigger] self@[j]).0 >= c,
            decreases hi - lo,
        {
            let mid: usize = lo + (hi - lo) / 2;
            if self.records[mid].codepoint < c {
                assert forall|j: int| 0 <= j < mid + 1 implies (#[trigger] self@[j]).0 < c by {
                    if j < mid {
                        assert(self@[j].0 < self@[mid as int].0);
                    }
                }
                lo = mid + 1;
            } else {
                assert forall|j: int| mid <= j < self@.len() implies (#[trigger] self@[j]).0
                    >= c by {
                    if mid < j {
                        assert(self@[mid as int].0 < self@[j].0);
                    }
                }
                hi = mid;
            }
        }
        lo
    }

    /// The name recorded for `c`, if the index has one.
    pub fn get(&self, key: &char) -> (r: Option<&String>)
        ensures
            match r {
                Some(name) => lookup(self@, *key) == Some(name@),
                None => lookup(self@, *key) is None,
            },
    {
        proof {
            use_type_invariant(self);
        }
        let c = *key;
        let i = self.lower_bound(c);
        if i < self.records.len() && self.records[i].codepoint == c {
            proof {
                lemma_lookup_at(self@, i as int);
            }
            Some(&self.records[i].name)
        } else {
            proof {
                if has_key(self@, c) {
                    let k = position_of(self@, c);
                    assert(0 <= k < self@.len() && self@[k].0 == c);
                    if k > i {
                        assert(self@[i as int].0 < self@[k].0);
                    }
                }
            }
            None
        }
    }

    /// Whether the index has a record for `c`.
    pub fn contains_key(&self, key: &char) -> (r: bool)
        ensures
            r == has_key(self@, *key),
    {
        self.get(key).is_some()
    }

    /// Records `name` for `c`, replacing an earlier name; returns the name replaced.
    pub fn insert(&mut self, c: char, name: String) -> (r: Option<String>)
        ensures
            final(self).wf(),
            to_map(final(self)@) == to_map(old(self)@).insert(c, name@),
            match r {
                Some(prev) => lookup(old(self)@, c) == Some(prev@),
                None => lookup(old(self)@, c) is None,
            },
    {
        proof {
            use_type_invariant(&*self);
        }
        let i = self.lower_bound(c);
        let ghost before = self@;
        // The records leave the index while they change, and come back ordered.
        let mut records: Vec<CharacterRecord> = Vec::new();
        std::mem::swap(&mut self.records, &mut records);
        assert(entries(records@) == before);
        let fresh_record = CharacterRecord { codepoint: c, name };
        let ghost fresh = fresh_record@;
        let replaced = if i < records.len() && records[i].codepoint == c {
            let previous = records.remove(i);
            records.insert(i, fresh_record);
            proof {
                let after = entries(records@);
                assert(after =~= before.update(i as int, fresh));
                lemma_lookup_at(before, i as int);
                assert(ascending(after)) by {
                    assert forall|a: int, b: int| 0 <= a < b < after.len() implies (
                    #[trigger] after[a]).0 < (#[trigger] after[b]).0 by {
                        assert(before[a].0 < before[b].0);
                    }
                }
                assert forall|d: char| #[trigger]
                    has_key(after, d) == (d == c || has_key(before, d)) by {
                    if has_key(after, d) {
                        let k = position_of(after, d);
                        assert(0 <= k < after.len() && after[k].0 == d);
                        assert(before[k].0 == d);
                    }
                    if has_key(before, d) {
                        let k = position_of(before, d);
                        assert(0 <= k < before.len() && before[k].0 == d);
                        assert(after[k].0 == d);
                    }
                }
                assert forall|d: char| has_key(after, d) implies #[trigger] lookup(after, d) == (if d
                    == c {
                    Some(fresh.1)
                } else {
                    lookup(before, d)
                }) by {
                    let k = position_of(after, d);
                    assert(0 <= k < after.len() && after[k].0 == d);
                    lemma_lookup_at(after, k);
                    lemma_lookup_at(before, k);
                }
                assert(to_map(after) =~= to_map(before).insert(c, fresh.1));
            }
            Some(previous.name)
        } else {
            records.insert(i, fresh_record);
            proof {
                let after = entries(records@);
                assert(after =~= before.take(i as int).push(fresh) + before.skip(i as int));
                assert(!has_key(before, c)) by {
                    if has_key(before, c) {
                        let k = position_of(before, c);
                        assert(0 <= k < before.len() && before[k].0 == c);
                        if k > i {
                            assert(before[i as int].0 < before[k].0);
                        }
                    }
                }
                assert(ascending(after)) by {
                    assert forall|a: int, b: int| 0 <= a < b < after.len() implies (
                    #[trigger] after[a]).0 < (#[trigger] after[b]).0 by {
                        if b < i {
                            assert(before[a].0 < before[b].0);
                        } else if b == i {
                            assert(before[a].0 < c);
                        } else if a < i {
                            assert(before[a].0 < c);
                            assert(before[b - 1].0 >= c);
                        } else if a == i {
                            assert(before[b - 1].0 >= c);
                            assert(before[b - 1].0 != c);
                        } else {
                            assert(before[a - 1].0 < before[b - 1].0);
                        }
                    }
                }
                assert forall|d: char| #[trigger]
                    has_key(after, d) == (d == c || has_key(before, d)) by {
                    if has_key(after, d) && d != c {
                        let k = position_of(after, d);
                        assert(0 <= k < after.len() && after[k].0 == d);
                        if k < i {
                            assert(before[k].0 == d);
                        } else {
                            assert(before[k - 1].0 == d);
                        }
                    }
                    if has_key(before, d) {
                        let k = position_of(before, d);
                        assert(0 <= k < before.len() && before[k].0 == d);
                        if k < i {
                            assert(after[k].0 == d);
                        } else {
                            assert(after[k + 1].0 == d);
                        }
                    }
                    if d == c {
                        assert(after[i as int].0 == c);
                    }
                }
                assert forall|d: char| has_key(after, d) implies #[trigger] lookup(after, d) == (if d
                    == c {
                    Some(fresh.1)
                } else {
                    lookup(before, d)
                }) by {
                    let k = position_of(after, d);
                    assert(0 <= k < after.len() && after[k].0 == d);
                    lemma_lookup_at(after, k);
                    if k < i {
                        lemma_lookup_at(before, k);
                    } else if k > i {
                        lemma_lookup_at(before, k - 1);
                    }
                }
                assert(to_map(after) =~= to_map(before).insert(c, fresh.1));
            }
            None
        };
        std::mem::swap(&mut self.records, &mut records);
        replaced
    }
}

} // verus!
