//! The word-frequency table: every distinct token with the number of times
//! it was seen, in the order of first discovery.

use crate::models::message::WordCount;
use vstd::hash_map::StringHashMap;
use vstd::prelude::*;

verus! {

/// Position of the first entry for `word` in `entries`, or -1.
pub open spec fn position(entries: Seq<WordCount>, word: Seq<char>, from: int) -> int
    decreases entries.len() - from,
{
    if from < 0 || from >= entries.len() {
        -1
    } else if entries[from].word@ == word {
        from
    } else {
        position(entries, word, from + 1)
    }
}

/// `entries` after one more sighting of `word`: its count goes up by one,
/// or, if it was never seen, it joins at the end with count one.
pub open spec fn recorded(entries: Seq<WordCount>, word: String) -> Seq<WordCount> {
    let at = position(entries, word@, 0);
    if at >= 0 {
        entries.update(
            at,
            WordCount { word: entries[at].word, count: (entries[at].count + 1) as u32 },
        )
    } else {
        entries.push(WordCount { word, count: 1 })
    }
}

/// Whether no two of `entries` are for the same word.
pub open spec fn distinct_words(entries: Seq<WordCount>) -> bool {
    forall|i: int, j: int|
        0 <= i < j < entries.len() ==> (#[trigger] entries[i]).word@ != (#[trigger] entries[j]).word@
}

/// Distinct tokens with their counts, in the order of first discovery.
pub struct WordTable {
    entries: Vec<WordCount>,
    index: StringHashMap<usize>,
}

impl WordTable {
    /// The index finds every entry by its word, and nothing else.
    pub closed spec fn wf(&self) -> bool {
        &&& forall|i: int|
            0 <= i < self.entries@.len() ==> self.index@.contains_key(
                #[trigger] self.entries@[i].word@,
            ) && self.index@[self.entries@[i].word@] == i
        &&& forall|k: Seq<char>| #[trigger]
            self.index@.contains_key(k) ==> self.index@[k] < self.entries@.len()
                && self.entries@[self.index@[k] as int].word@ == k
    }

    /// The entries, in the order of first discovery.
    pub closed spec fn view(&self) -> Seq<WordCount> {
        self.entries@
    }

    /// An empty table.
    pub fn new() -> (r: Self)
        ensures
            r.wf(),
            r@.len() == 0,
    {
        WordTable { entries: Vec::new(), index: StringHashMap::new() }
    }

    /// Whether one more sighting of `word` can be counted: its count is not
    /// at the limit of the counter.
    pub open spec fn has_room(&self, word: Seq<char>) -> bool {
        let at = position(self@, word, 0);
        at >= 0 ==> self@[at].count < u32::MAX
    }

    /// Whether one more sighting of `word` can be counted.
    pub fn can_record(&self, word: &str) -> (b: bool)
        requires
            self.wf(),
        ensures
            b == self.has_room(word@),
    {
        proof {
            lemma_position(self.entries@, word@, 0);
        }
        match self.index.get(word) {
            Some(at) => self.entries[*at].count < u32::MAX,
            None => true,
        }
    }

    /// Counts one more sighting of `word`.
    pub fn record(&mut self, word: String)
        requires
            old(self).wf(),
            old(self).has_room(word@),
        ensures
            final(self).wf(),
            final(self)@ == recorded(old(self)@, word),
    {
        proof {
            lemma_position(self.entries@, word@, 0);
        }
        let found = self.index.get(word.as_str());
        match found {
            Some(at) => {
                let at = *at;
                let entry = &mut self.entries[at];
                entry.count = entry.count + 1;
                assert(self.entries@ =~= recorded(old(self)@, word));
            },
            None => {
                let at = self.entries.len();
                let key = word.clone();
                self.entries.push(WordCount { word, count: 1 });
                self.index.insert(key, at);
            },
        }
    }

    /// No two entries of a table are for the same word.
    pub proof fn lemma_distinct(&self)
        requires
            self.wf(),
        ensures
            distinct_words(self@),
    {
        assert forall|i: int, j: int| 0 <= i < j < self@.len() implies (#[trigger] self@[i]).word@
            != (#[trigger] self@[j]).word@ by {
            assert(self.index@[self.entries@[i].word@] == i);
            assert(self.index@[self.entries@[j].word@] == j);
        }
    }

    /// Hands out the entries, in the order of first discovery.
    pub fn into_entries(self) -> (entries: Vec<WordCount>)
        ensures
            entries@ == self@,
    {
        self.entries
    }

    /// Number of distinct words.
    pub fn len(&self) -> (n: usize)
        ensures
            n == self@.len(),
    {
        self.entries.len()
    }
}

/// One more sighting keeps the words of a table distinct.
pub proof fn lemma_recorded_distinct(entries: Seq<WordCount>, word: String)
    requires
        distinct_words(entries),
    ensures
        distinct_words(recorded(entries, word)),
{
    lemma_position(entries, word@, 0);
    let out = recorded(entries, word);
    let at = position(entries, word@, 0);
    assert forall|i: int, j: int| 0 <= i < j < out.len() implies (#[trigger] out[i]).word@ != (
    #[trigger] out[j]).word@ by {
        if at >= 0 {
            assert(out[i].word@ == entries[i].word@);
            assert(out[j].word@ == entries[j].word@);
        } else if j < entries.len() {
            assert(out[i] == entries[i] && out[j] == entries[j]);
        } else {
            assert(out[i] == entries[i]);
        }
    }
}

/// What the search for a word finds: the first entry that has it, with no
/// such entry before; or nothing, when no entry from `from` on has it.
pub proof fn lemma_position(entries: Seq<WordCount>, word: Seq<char>, from: int)
    requires
        0 <= from,
    ensures
        ({
            let at = position(entries, word, from);
            if at < 0 {
                at == -1 && forall|i: int| from <= i < entries.len() ==> entries[i].word@ != word
            } else {
                &&& from <= at < entries.len()
                &&& entries[at].word@ == word
                &&& forall|i: int| from <= i < at ==> entries[i].word@ != word
            }
        }),
    decreases entries.len() - from,
{
    if from < entries.len() && entries[from].word@ != word {
        lemma_position(entries, word, from + 1);
    }
}

} // verus!
