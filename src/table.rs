use vstd::prelude::*;

use crate::pairs::{
    keys_distinct, lemma_pairs_map_dom, lemma_pairs_map_index, lemma_pairs_map_len,
    lemma_pairs_map_upsert, pairs_map, same, upserted,
};
use crate::tag::Tag;

verus! {

/// Values keyed by tag: one row of a table.
#[derive(Debug, PartialEq)]
pub struct TagRow<V> {
    entries: Vec<(Tag, V)>,
}

/// The view of a row, as a spec function value.
pub closed spec fn row_view<V>() -> spec_fn(TagRow<V>) -> Map<Tag, V> {
    |r: TagRow<V>| r@
}

/// The view of a word, as a spec function value.
pub closed spec fn word_view() -> spec_fn(String) -> Seq<char> {
    |s: String| s@
}

impl<V> View for TagRow<V> {
    type V = Map<Tag, V>;

    closed spec fn view(&self) -> Map<Tag, V> {
        pairs_map(self.entries@, same(), same())
    }
}

/// Where the entry keyed by `key` stands in `s`.
fn find_tag<V>(s: &Vec<(Tag, V)>, key: Tag) -> (r: Option<usize>)
    ensures
        match r {
            Some(i) => i < s@.len() && s@[i as int].0 == key,
            None => forall|i: int| 0 <= i < s@.len() ==> #[trigger] s@[i].0 != key,
        },
{
    let mut i: usize = 0;
    while i < s.len()
        invariant
            i <= s@.len(),
            forall|j: int| 0 <= j < i ==> #[trigger] s@[j].0 != key,
        decreases s@.len() - i,
    {
        if s[i].0 == key {
            return Some(i);
        }
        i = i + 1;
    }
    None
}

/// Where the entry keyed by the word `key` stands in `s`.
fn find_word<V>(s: &Vec<(String, V)>, key: &str) -> (r: Option<usize>)
    ensures
        match r {
            Some(i) => i < s@.len() && s@[i as int].0@ == key@,
            None => forall|i: int| 0 <= i < s@.len() ==> #[trigger] s@[i].0@ != key@,
        },
{
    let mut i: usize = 0;
    while i < s.len()
        invariant
            i <= s@.len(),
            forall|j: int| 0 <= j < i ==> #[trigger] s@[j].0@ != key@,
        decreases s@.len() - i,
    {
        if same_text(s[i].0.as_str(), key) {
            return Some(i);
        }
        i = i + 1;
    }
    None
}

/// Whether two texts hold the same characters.
fn same_text(a: &str, b: &str) -> (r: bool)
    ensures
        r == (a@ == b@),
{
    let n = a.unicode_len();
    if n != b.unicode_len() {
        return false;
    }
    let mut i: usize = 0;
    while i < n
        invariant
            n == a@.len(),
            n == b@.len(),
            i <= n,
            forall|j: int| 0 <= j < i ==> a@[j] == b@[j],
        decreases n - i,
    {
        if a.get_char(i) != b.get_char(i) {
            return false;
        }
        i = i + 1;
    }
    assert(a@ =~= b@);
    true
}

impl<V> TagRow<V> {
    /// No tag keys two entries.
    pub closed spec fn wf(&self) -> bool {
        keys_distinct(self.entries@, same())
    }

    /// An empty row.
    pub(crate) fn new() -> (r: TagRow<V>)
        ensures
            r.wf(),
            r@ == Map::<Tag, V>::empty(),
    {
        let r = TagRow { entries: Vec::new() };
        assert(r@ =~= Map::<Tag, V>::empty());
        r
    }

    /// Sets the value of `tag`, replacing any earlier one.
    pub(crate) fn insert(&mut self, tag: Tag, val: V)
        requires
            old(self).wf(),
        ensures
            final(self).wf(),
            final(self)@ == old(self)@.insert(tag, val),
    {
        let ghost before = self.entries@;
        let ghost val_copy = val;
        match find_tag(&self.entries, tag) {
            Some(i) => {
                self.entries[i] = (tag, val);
                assert(self.entries@ == before.update(i as int, (tag, val_copy)));
            },
            None => {
                self.entries.push((tag, val));
            },
        }
        assert(upserted(before, self.entries@, tag, val_copy, same()));
        proof {
            lemma_pairs_map_upsert(before, self.entries@, tag, val_copy, same(), same());
        }
    }

    /// The number of tags that have a value.
    pub fn len(&self) -> (r: usize)
        requires
            self.wf(),
        ensures
            r == self@.len(),
    {
        proof {
            lemma_pairs_map_len(self.entries@, same::<Tag>(), same::<V>());
        }
        self.entries.len()
    }

    /// The value of `tag`, if it has one.
    pub fn get(&self, tag: &Tag) -> (r: Option<&V>)
        requires
            self.wf(),
        ensures
            match r {
                Some(v) => self@.contains_key(*tag) && *v == self@[*tag],
                None => !self@.contains_key(*tag),
            },
    {
        match find_tag(&self.entries, *tag) {
            Some(i) => {
                proof {
                    lemma_pairs_map_index(self.entries@, same::<Tag>(), same::<V>(), i as int);
                }
                Some(&self.entries[i].1)
            },
            None => {
                proof {
                    lemma_pairs_map_dom(self.entries@, same::<Tag>(), same::<V>(), *tag);
                }
                None
            },
        }
    }
}

/// Transition probabilities: for a prior tag, the probability of each
/// following tag, kept as the decimal text of the source.
#[derive(Debug, PartialEq)]
pub struct TransitionMatrix {
    rows: Vec<(Tag, TagRow<String>)>,
}

impl View for TransitionMatrix {
    type V = Map<Tag, Map<Tag, String>>;

    closed spec fn view(&self) -> Map<Tag, Map<Tag, String>> {
        pairs_map(self.rows@, same(), row_view())
    }
}

impl TransitionMatrix {
    /// No prior tag keys two rows, and each row is well formed.
    pub closed spec fn wf(&self) -> bool {
        &&& keys_distinct(self.rows@, same())
        &&& forall|i: int| 0 <= i < self.rows@.len() ==> (#[trigger] self.rows@[i]).1.wf()
    }

    /// An empty matrix.
    pub(crate) fn new() -> (r: TransitionMatrix)
        ensures
            r.wf(),
            r@ == Map::<Tag, Map<Tag, String>>::empty(),
    {
        let r = TransitionMatrix { rows: Vec::new() };
        assert(r@ =~= Map::<Tag, Map<Tag, String>>::empty());
        r
    }

    /// Sets the row of the prior tag `tag`, replacing any earlier one.
    pub(crate) fn insert(&mut self, tag: Tag, row: TagRow<String>)
        requires
            old(self).wf(),
            row.wf(),
        ensures
            final(self).wf(),
            final(self)@ == old(self)@.insert(tag, row@),
    {
        let ghost before = self.rows@;
        let ghost row_copy = row;
        match find_tag(&self.rows, tag) {
            Some(i) => {
                self.rows[i] = (tag, row);
                assert(self.rows@ == before.update(i as int, (tag, row_copy)));
            },
            None => {
                self.rows.push((tag, row));
            },
        }
        assert(upserted(before, self.rows@, tag, row_copy, same()));
        proof {
            lemma_pairs_map_upsert(before, self.rows@, tag, row_copy, same(), row_view());
        }
        assert(row_view()(row_copy) == row_copy@);
        assert forall|i: int| 0 <= i < self.rows@.len() implies (#[trigger] self.rows@[i]).1.wf() by {
            if i < before.len() && self.rows@[i] != (tag, row_copy) {
                assert(self.rows@[i] == before[i]);
            }
        }
    }

    /// The number of prior tags that have a row.
    pub fn len(&self) -> (r: usize)
        requires
            self.wf(),
        ensures
            r == self@.len(),
    {
        proof {
            lemma_pairs_map_len(self.rows@, same::<Tag>(), row_view::<String>());
        }
        self.rows.len()
    }

    /// The row of the prior tag `tag`, if it has one.
    pub fn get(&self, tag: &Tag) -> (r: Option<&TagRow<String>>)
        requires
            self.wf(),
        ensures
            match r {
                Some(row) => self@.contains_key(*tag) && row@ == self@[*tag] && row.wf(),
                None => !self@.contains_key(*tag),
            },
    {
        match find_tag(&self.rows, *tag) {
            Some(i) => {
                proof {
                    lemma_pairs_map_index(self.rows@, same::<Tag>(), row_view::<String>(), i as int);
                }
                Some(&self.rows[i].1)
            },
            None => {
                proof {
                    lemma_pairs_map_dom(self.rows@, same::<Tag>(), row_view::<String>(), *tag);
                }
                None
            },
        }
    }
}

/// Emission counts: for a word, how often it was seen with each tag.
#[derive(Debug, PartialEq)]
pub struct EmissionTable {
    rows: Vec<(String, TagRow<i64>)>,
}

impl View for EmissionTable {
    type V = Map<Seq<char>, Map<Tag, i64>>;

    closed spec fn view(&self) -> Map<Seq<char>, Map<Tag, i64>> {
        pairs_map(self.rows@, word_view(), row_view())
    }
}

impl EmissionTable {
    /// No word keys two rows, and each row is well formed.
    pub closed spec fn wf(&self) -> bool {
        &&& keys_distinct(self.rows@, word_view())
        &&& forall|i: int| 0 <= i < self.rows@.len() ==> (#[trigger] self.rows@[i]).1.wf()
    }

    /// An empty table.
    pub(crate) fn new() -> (r: EmissionTable)
        ensures
            r.wf(),
            r@ == Map::<Seq<char>, Map<Tag, i64>>::empty(),
    {
        let r = EmissionTable { rows: Vec::new() };
        assert(r@ =~= Map::<Seq<char>, Map<Tag, i64>>::empty());
        r
    }

    /// Sets the row of `word`, replacing any earlier one.
    pub(crate) fn insert(&mut self, word: String, row: TagRow<i64>)
        requires
            old(self).wf(),
            row.wf(),
        ensures
            final(self).wf(),
            final(self)@ == old(self)@.insert(word@, row@),
    {
        let ghost before = self.rows@;
        let ghost row_copy = row;
        let ghost word_copy = word;
        match find_word(&self.rows, word.as_str()) {
            Some(i) => {
                self.rows[i] = (word, row);
                assert(self.rows@ == before.update(i as int, (word_copy, row_copy)));
                assert(word_view()(before[i as int].0) == word_view()(word_copy));
            },
            None => {
                self.rows.push((word, row));
                assert forall|i: int| 0 <= i < before.len() implies word_view()(#[trigger] before[i].0)
                    != word_view()(word_copy) by {
                    assert(before[i].0@ != word_copy@);
                }
            },
        }
        assert(upserted(before, self.rows@, word_copy, row_copy, word_view()));
        proof {
            lemma_pairs_map_upsert(before, self.rows@, word_copy, row_copy, word_view(), row_view());
        }
        assert(row_view()(row_copy) == row_copy@);
        assert(word_view()(word_copy) == word_copy@);
        assert forall|i: int| 0 <= i < self.rows@.len() implies (#[trigger] self.rows@[i]).1.wf() by {
            if i < before.len() && self.rows@[i] != (word_copy, row_copy) {
                assert(self.rows@[i] == before[i]);
            }
        }
    }

    /// The number of words that have a row.
    pub fn len(&self) -> (r: usize)
        requires
            self.wf(),
        ensures
            r == self@.len(),
    {
        proof {
            lemma_pairs_map_len(self.rows@, word_view(), row_view::<i64>());
        }
        self.rows.len()
    }

    /// The row of `word`, if it has one.
    pub fn get(&self, word: &str) -> (r: Option<&TagRow<i64>>)
        requires
            self.wf(),
        ensures
            match r {
                Some(row) => self@.contains_key(word@) && row@ == self@[word@] && row.wf(),
                None => !self@.contains_key(word@),
            },
    {
        match find_word(&self.rows, word) {
            Some(i) => {
                proof {
                    lemma_pairs_map_index(self.rows@, word_view(), row_view::<i64>(), i as int);
                }
                Some(&self.rows[i].1)
            },
            None => {
                proof {
                    lemma_pairs_map_dom(self.rows@, word_view(), row_view::<i64>(), word@);
                    if self@.contains_key(word@) {
                        let j = choose|j: int|
                            0 <= j < self.rows@.len() && word_view()(#[trigger] self.rows@[j].0) == word@;
                        assert(self.rows@[j].0@ != word@);
                    }
                }
                None
            },
        }
    }
}

} // verus!
