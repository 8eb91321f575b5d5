use vstd::prelude::*;

use crate::dictionary::{futharkation_from_word_with_override, spec_futharkation_with_override, Futharkation};
use crate::text::same_text;

verus! {

/// A spell of the book: its word, the runes that cast it, and whether a new
/// run starts with it learned. (What the spell does is kept beside the book
/// by the game, which carries fractional amounts.)
#[derive(Debug, Clone, PartialEq)]
pub struct SpellDef {
    pub word: String,
    pub futharkation: String,
    pub starter: bool,
}

impl SpellDef {
    /// The spell's word with its rune spelling.
    pub fn as_futharkation(&self) -> (f: Futharkation)
        ensures
            f.word@ == self.word@,
            f.letters@ == self.futharkation@,
    {
        Futharkation { word: self.word.clone(), letters: self.futharkation.clone() }
    }
}

/// A spell as the book file lists it: its word, an optional rune spelling
/// that overrides the dictionary, and whether it is a starter. (Its effects
/// are read beside it by the game.)
#[derive(Debug, Clone)]
pub struct RawSpellDef {
    pub word: String,
    pub futharkation_spec: Option<String>,
    pub starter: bool,
}

/// Why a book could not be built.
#[derive(Debug, Clone)]
pub enum BookError {
    /// A spell could not be spelled in runes; the message says why.
    Futharkation(String),
}

/// The view of an optional owned string.
pub open spec fn opt_string_view(s: Option<String>) -> Option<Seq<char>> {
    match s {
        Some(t) => Some(t@),
        None => None,
    }
}

/// How the raw spell `raw` is spelled: its override, or the dictionary.
pub open spec fn raw_spelling(dictionary: Seq<char>, raw: RawSpellDef) -> Result<(Seq<char>, Seq<char>), Seq<char>> {
    spec_futharkation_with_override(dictionary, raw.word@, opt_string_view(raw.futharkation_spec))
}

/// `spell` is `raw` spelled as `raw_spelling` says.
pub open spec fn spelled_as(dictionary: Seq<char>, raw: RawSpellDef, spell: SpellDef) -> bool {
    &&& raw_spelling(dictionary, raw) == Ok::<(Seq<char>, Seq<char>), Seq<char>>((spell.word@, spell.futharkation@))
    &&& spell.word@ == raw.word@
    &&& spell.starter == raw.starter
}

/// Builds the spells of a book from its raw entries, in order, spelling each
/// in runes. The first entry that cannot be spelled makes the whole book fail
/// with its message.
pub fn book_from_raw_spells(default_dictionary: &str, raw: &[RawSpellDef]) -> (r: Result<Vec<SpellDef>, BookError>)
    requires
        default_dictionary@.len() < usize::MAX,
    ensures
        match r {
            Ok(spells) => spells@.len() == raw@.len() && forall|j: int|
                0 <= j < raw@.len() ==> spelled_as(default_dictionary@, raw@[j], #[trigger] spells@[j]),
            Err(BookError::Futharkation(msg)) => exists|k: int|
                0 <= k < raw@.len() && raw_spelling(default_dictionary@, #[trigger] raw@[k]) == Err::<
                    (Seq<char>, Seq<char>),
                    Seq<char>,
                >(msg@) && forall|j: int| 0 <= j < k ==> raw_spelling(default_dictionary@, raw@[j]) is Ok,
        },
{
    let mut spells: Vec<SpellDef> = Vec::new();
    let mut i: usize = 0;
    while i < raw.len()
        invariant
            i <= raw.len(),
            default_dictionary@.len() < usize::MAX,
            spells@.len() == i,
            forall|j: int| 0 <= j < i ==> spelled_as(default_dictionary@, raw@[j], #[trigger] spells@[j]),
        decreases raw.len() - i,
    {
        let entry = &raw[i];
        let override_letters: Option<&str> = match &entry.futharkation_spec {
            Some(t) => Some(t.as_str()),
            None => None,
        };
        match futharkation_from_word_with_override(default_dictionary, entry.word.as_str(), override_letters) {
            Ok(mapped) => {
                spells.push(SpellDef { word: entry.word.clone(), futharkation: mapped.letters, starter: entry.starter });
            },
            Err(e) => {
                assert(forall|j: int| 0 <= j < i ==> spelled_as(default_dictionary@, raw@[j], spells@[j]));
                return Err(BookError::Futharkation(e));
            },
        }
        i = i + 1;
    }
    Ok(spells)
}

/// The spell book.
#[derive(Debug, Clone)]
pub struct Book(pub Vec<SpellDef>);

impl Book {
    /// The spells, in book order.
    pub fn spells(&self) -> (r: &[SpellDef])
        ensures
            r@ == self.0@,
    {
        self.0.as_slice()
    }
}

/// The words of a list of strings.
pub open spec fn word_views(words: Seq<String>) -> Seq<Seq<char>> {
    words.map_values(|w: String| w@)
}

/// Whether `word` is among `words`.
pub fn words_contain(words: &Vec<String>, word: &str) -> (r: bool)
    ensures
        r == word_views(words@).contains(word@),
{
    let mut i: usize = 0;
    while i < words.len()
        invariant
            i <= words.len(),
            forall|j: int| 0 <= j < i ==> words@[j]@ != word@,
        decreases words.len() - i,
    {
        if same_text(words[i].as_str(), word) {
            assert(word_views(words@)[i as int] == word@);
            return true;
        }
        i = i + 1;
    }
    assert forall|j: int| 0 <= j < words@.len() implies word_views(words@)[j] != word@ by {}
    false
}

/// The words of `words`, each once, in the order of their first occurrence.
pub open spec fn distinct_words(words: Seq<Seq<char>>) -> Seq<Seq<char>>
    decreases words.len(),
{
    if words.len() == 0 {
        Seq::empty()
    } else {
        let rest = distinct_words(words.drop_last());
        if rest.contains(words.last()) {
            rest
        } else {
            rest.push(words.last())
        }
    }
}

/// `unique_words` lists each learned word exactly once: nothing twice, and
/// exactly the words that were learned.
pub proof fn lemma_distinct_words(words: Seq<Seq<char>>)
    ensures
        distinct_words(words).no_duplicates(),
        forall|w: Seq<char>| #[trigger] distinct_words(words).contains(w) <==> words.contains(w),
        distinct_words(words).len() <= words.len(),
        words.len() > 0 ==> distinct_words(words).len() > 0,
    decreases words.len(),
{
    if words.len() > 0 {
        let init = words.drop_last();
        lemma_distinct_words(init);
        let rest = distinct_words(init);
        assert(words =~= init.push(words.last()));
        assert forall|w: Seq<char>| #[trigger] distinct_words(words).contains(w) <==> words.contains(w) by {
            broadcast use vstd::seq_lib::group_seq_properties;

            assert(init.push(words.last()).contains(w) <==> (init.contains(w) || w == words.last()));
            assert(rest.push(words.last()).contains(w) <==> (rest.contains(w) || w == words.last()));
        }
        if !rest.contains(words.last()) {
            let after = rest.push(words.last());
            assert forall|a: int, b: int| 0 <= a < after.len() && 0 <= b < after.len() && a != b implies after[a]
                != after[b] by {
                if a == rest.len() {
                    assert(rest[b] == after[b]);
                } else if b == rest.len() {
                    assert(rest[a] == after[a]);
                }
            }
            assert(words[words.len() - 1] == words.last());
        } else {
            assert(words[words.len() - 1] == words.last());
        }
    }
}

/// The words of the starter spells, in book order.
pub open spec fn starter_words(spells: Seq<SpellDef>) -> Seq<Seq<char>>
    decreases spells.len(),
{
    if spells.len() == 0 {
        Seq::empty()
    } else {
        let rest = starter_words(spells.drop_last());
        if spells.last().starter {
            rest.push(spells.last().word@)
        } else {
            rest
        }
    }
}

/// Words the player has learned in the current run.
#[derive(Debug, Clone)]
pub struct LearnedSpells {
    pub words: Vec<String>,
}

impl LearnedSpells {
    /// No word learned.
    pub fn default() -> (r: Self)
        ensures
            r.words@.len() == 0,
    {
        LearnedSpells { words: Vec::new() }
    }

    /// Whether `word` has been learned.
    pub fn contains(&self, word: &str) -> (r: bool)
        ensures
            r == word_views(self.words@).contains(word@),
    {
        words_contain(&self.words, word)
    }

    /// The learned words, each once, in the order they were first learned.
    pub fn unique_words(&self) -> (r: Vec<String>)
        ensures
            word_views(r@) == distinct_words(word_views(self.words@)),
    {
        let mut out: Vec<String> = Vec::new();
        let mut i: usize = 0;
        while i < self.words.len()
            invariant
                i <= self.words.len(),
                word_views(out@) == distinct_words(word_views(self.words@).take(i as int)),
            decreases self.words.len() - i,
        {
            assert(word_views(self.words@).take(i + 1).drop_last() =~= word_views(self.words@).take(i as int));
            assert(word_views(self.words@).take(i + 1).last() == self.words@[i as int]@);
            if !words_contain(&out, self.words[i].as_str()) {
                out.push(self.words[i].clone());
                assert(word_views(out@) =~= distinct_words(word_views(self.words@).take(i as int)).push(
                    self.words@[i as int]@,
                ));
            }
            i = i + 1;
        }
        assert(word_views(self.words@).take(i as int) =~= word_views(self.words@));
        out
    }

    /// Forgets the first occurrence of `word`; nothing changes when it was
    /// not learned.
    pub fn remove_one(&mut self, word: &str)
        ensures
            !word_views(old(self).words@).contains(word@) ==> final(self).words@ == old(self).words@,
            word_views(old(self).words@).contains(word@) ==> exists|i: int|
                0 <= i < old(self).words@.len() && #[trigger] old(self).words@[i]@ == word@ && (forall|j: int|
                    0 <= j < i ==> old(self).words@[j]@ != word@) && final(self).words@ == old(
                    self,
                ).words@.remove(i),
    {
        let mut i: usize = 0;
        while i < self.words.len()
            invariant
                i <= self.words.len(),
                self.words@ == old(self).words@,
                forall|j: int| 0 <= j < i ==> self.words@[j]@ != word@,
            decreases self.words.len() - i,
        {
            if same_text(self.words[i].as_str(), word) {
                let ghost before = self.words@;
                self.words.remove(i);
                assert(before[i as int]@ == word@);
                assert(word_views(before)[i as int] == word@);
                return;
            }
            i = i + 1;
        }
        assert forall|j: int| 0 <= j < old(self).words@.len() implies word_views(old(self).words@)[j] != word@ by {}
    }

    /// Learns `word`; a word already learned is not added twice.
    pub fn insert(&mut self, word: String)
        ensures
            word_views(final(self).words@) == if word_views(old(self).words@).contains(word@) {
                word_views(old(self).words@)
            } else {
                word_views(old(self).words@).push(word@)
            },
    {
        if !self.contains(word.as_str()) {
            self.words.push(word);
            assert(word_views(self.words@) =~= word_views(old(self).words@).push(word@));
        }
    }

    /// Forgets everything and learns exactly the starter spells, in book order.
    pub fn reset_to_starters(&mut self, spells: &[SpellDef])
        ensures
            word_views(final(self).words@) == starter_words(spells@),
    {
        let mut words: Vec<String> = Vec::new();
        let mut i: usize = 0;
        while i < spells.len()
            invariant
                i <= spells.len(),
                word_views(words@) == starter_words(spells@.take(i as int)),
            decreases spells.len() - i,
        {
            assert(spells@.take(i + 1).drop_last() =~= spells@.take(i as int));
            if spells[i].starter {
                words.push(spells[i].word.clone());
                assert(word_views(words@) =~= starter_words(spells@.take(i as int)).push(spells@[i as int].word@));
            }
            i = i + 1;
        }
        assert(spells@.take(i as int) =~= spells@);
        self.words = words;
    }

    /// The spells of `spells` whose word has been learned, in book order.
    pub fn filter_spells<'a>(&self, spells: &'a [SpellDef]) -> (r: Vec<&'a SpellDef>)
        ensures
            r@.len() <= spells@.len(),
            forall|k: int| 0 <= k < r@.len() ==> word_views(self.words@).contains(#[trigger] r@[k].word@),
            r@.map_values(|s: &SpellDef| *s) == learned_spells_of(word_views(self.words@), spells@),
    {
        let mut out: Vec<&'a SpellDef> = Vec::new();
        let mut i: usize = 0;
        while i < spells.len()
            invariant
                i <= spells.len(),
                out@.map_values(|s: &SpellDef| *s) == learned_spells_of(word_views(self.words@), spells@.take(i as int)),
                out@.len() <= i,
                forall|k: int| 0 <= k < out@.len() ==> word_views(self.words@).contains(#[trigger] out@[k].word@),
            decreases spells.len() - i,
        {
            assert(spells@.take(i + 1).drop_last() =~= spells@.take(i as int));
            if self.contains(spells[i].word.as_str()) {
                out.push(&spells[i]);
                assert(out@.map_values(|s: &SpellDef| *s) =~= learned_spells_of(
                    word_views(self.words@),
                    spells@.take(i as int),
                ).push(spells@[i as int]));
            }
            i = i + 1;
        }
        assert(spells@.take(i as int) =~= spells@);
        out
    }
}

/// The spells of `spells` whose word is among `learned`, in order.
pub open spec fn learned_spells_of(learned: Seq<Seq<char>>, spells: Seq<SpellDef>) -> Seq<SpellDef>
    decreases spells.len(),
{
    if spells.len() == 0 {
        Seq::empty()
    } else {
        let rest = learned_spells_of(learned, spells.drop_last());
        if learned.contains(spells.last().word@) {
            rest.push(spells.last())
        } else {
            rest
        }
    }
}

/// Learning never duplicates a word: a list of distinct words stays distinct.
pub proof fn lemma_insert_keeps_words_distinct(before: Seq<Seq<char>>, word: Seq<char>)
    requires
        before.no_duplicates(),
    ensures
        (if before.contains(word) { before } else { before.push(word) }).no_duplicates(),
{
    if !before.contains(word) {
        let after = before.push(word);
        assert forall|a: int, b: int| 0 <= a < after.len() && 0 <= b < after.len() && a != b implies after[a]
            != after[b] by {
            if a == before.len() {
                assert(before[b] == after[b]);
            } else if b == before.len() {
                assert(before[a] == after[a]);
            }
        }
    }
}

} // verus!
