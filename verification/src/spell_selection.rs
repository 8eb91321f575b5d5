use vstd::prelude::*;

use rand::rngs::StdRng;

use crate::random::{choose_index, shuffle_indices};
use crate::spellbook::{
    distinct_words, lemma_distinct_words, word_views, words_contain, LearnedSpells, SpellDef,
};

verus! {

/// From this many learned words on, a binding also offers to forget one.
pub const UNLEARN_THRESHOLD: usize = 8;

/// From this many learned words on, a binding also offers to learn one again.
pub const RELEARN_THRESHOLD: usize = 12;

/// What choosing a card does.
#[derive(Debug, Clone, Copy, PartialEq, Eq, Structural)]
pub enum SelectionMode {
    Learn,
    Unlearn,
    Relearn,
}

/// A card of the selection: a word and what choosing it does.
#[derive(Debug, Clone)]
pub struct Candidate {
    pub word: String,
    pub mode: SelectionMode,
}

/// The spell selection offered after a binding; open while it has
/// candidates.
#[derive(Debug, Clone)]
pub struct SpellSelection {
    pub candidates: Option<Vec<Candidate>>,
}

impl SpellSelection {
    /// Closed.
    pub fn default() -> (r: Self)
        ensures
            r.candidates is None,
    {
        SpellSelection { candidates: None }
    }

    /// The selection is being shown.
    pub fn is_open(&self) -> (r: bool)
        ensures
            r == self.candidates is Some,
    {
        self.candidates.is_some()
    }

    /// Closes the selection.
    pub fn close(&mut self)
        ensures
            final(self).candidates is None,
    {
        self.candidates = None;
    }
}

/// The words of the spells of the book that have not been learned, in book
/// order.
pub open spec fn unlearned_words(learned: Seq<Seq<char>>, spells: Seq<SpellDef>) -> Seq<Seq<char>>
    decreases spells.len(),
{
    if spells.len() == 0 {
        Seq::empty()
    } else {
        let rest = unlearned_words(learned, spells.drop_last());
        if learned.contains(spells.last().word@) {
            rest
        } else {
            rest.push(spells.last().word@)
        }
    }
}

/// How many words a selection offers to learn: two, or all there are when
/// fewer remain.
pub open spec fn learn_offer_count(unlearned: Seq<Seq<char>>) -> int {
    if unlearned.len() < 2 { unlearned.len() as int } else { 2 }
}

/// The first `k` candidates offer distinct entries of `unlearned`.
pub open spec fn learn_offers(cands: Seq<Candidate>, unlearned: Seq<Seq<char>>, k: int) -> bool {
    &&& k <= cands.len()
    &&& forall|j: int| 0 <= j < k ==> (#[trigger] cands[j]).mode == SelectionMode::Learn
    &&& exists|picks: Seq<int>|
        #![trigger picks.no_duplicates()]
        picks.len() == k && picks.no_duplicates() && forall|j: int|
            0 <= j < k ==> 0 <= #[trigger] picks[j] < unlearned.len() && cands[j].word@ == unlearned[picks[j]]
}

/// The candidates a selection offers, read in order: up to two words not yet
/// learned (distinct entries of the book, chosen at random); then, from
/// `UNLEARN_THRESHOLD` learned words on, a learned word to forget; then, from
/// `RELEARN_THRESHOLD` on, a learned word to learn again.
pub open spec fn valid_candidates(cands: Seq<Candidate>, learned: Seq<Seq<char>>, spells: Seq<SpellDef>) -> bool {
    let unlearned = unlearned_words(learned, spells);
    let k = learn_offer_count(unlearned);
    let unlearn = learned.len() >= UNLEARN_THRESHOLD;
    let relearn = learned.len() >= RELEARN_THRESHOLD;
    &&& cands.len() == k + (if unlearn { 1int } else { 0 }) + (if relearn { 1int } else { 0 })
    &&& learn_offers(cands, unlearned, k)
    &&& unlearn ==> cands[k].mode == SelectionMode::Unlearn && learned.contains(cands[k].word@)
    &&& relearn ==> cands[k + 1].mode == SelectionMode::Relearn && learned.contains(cands[k + 1].word@)
}

/// Some spell of the book is cast by `word`.
pub open spec fn book_has_word(spells: Seq<SpellDef>, word: Seq<char>) -> bool {
    exists|s: int| 0 <= s < spells.len() && #[trigger] spells[s].word@ == word
}

/// Some candidate names a spell of the book.
pub open spec fn names_a_spell(cands: Seq<Candidate>, spells: Seq<SpellDef>) -> bool {
    exists|j: int, s: int|
        0 <= j < cands.len() && 0 <= s < spells.len() && #[trigger] cands[j].word@ == #[trigger] spells[s].word@
}

/// The words of the book's spells that `learned` does not hold, in order.
fn unlearned_of(spells: &[SpellDef], learned: &LearnedSpells) -> (r: Vec<String>)
    ensures
        word_views(r@) == unlearned_words(word_views(learned.words@), spells@),
{
    let mut out: Vec<String> = Vec::new();
    let mut i: usize = 0;
    while i < spells.len()
        invariant
            i <= spells.len(),
            word_views(out@) == unlearned_words(word_views(learned.words@), spells@.take(i as int)),
        decreases spells.len() - i,
    {
        assert(spells@.take(i + 1).drop_last() =~= spells@.take(i as int));
        if !learned.contains(spells[i].word.as_str()) {
            out.push(spells[i].word.clone());
            assert(word_views(out@) =~= unlearned_words(word_views(learned.words@), spells@.take(i as int)).push(
                spells@[i as int].word@,
            ));
        }
        i = i + 1;
    }
    assert(spells@.take(i as int) =~= spells@);
    out
}

/// A shuffle of `0..n` holds each index below `n` exactly once.
proof fn lemma_shuffled_indices(shuffled: Seq<usize>, n: nat)
    requires
        shuffled.to_multiset() == Seq::new(n, |i: int| i as usize).to_multiset(),
        n <= usize::MAX + 1,
    ensures
        shuffled.len() == n,
        shuffled.no_duplicates(),
        forall|j: int| 0 <= j < shuffled.len() ==> #[trigger] shuffled[j] < n,
{
    broadcast use vstd::seq_lib::group_to_multiset_ensures;

    let ordered = Seq::new(n, |i: int| i as usize);
    assert(ordered.no_duplicates());
    assert(shuffled.to_multiset().len() == ordered.to_multiset().len());
    ordered.lemma_multiset_has_no_duplicates();
    shuffled.lemma_multiset_has_no_duplicates_conv();
    assert forall|j: int| 0 <= j < shuffled.len() implies #[trigger] shuffled[j] < n by {
        assert(shuffled.contains(shuffled[j]));
        assert(ordered.to_multiset().count(shuffled[j]) > 0);
        assert(ordered.contains(shuffled[j]));
    }
}

/// The cards offered after a binding (see `valid_candidates`).
pub fn selection_candidates(spells: &[SpellDef], learned: &LearnedSpells, rng: &mut StdRng) -> (r: Vec<
    Candidate,
>)
    ensures
        valid_candidates(r@, word_views(learned.words@), spells@),
{
    let ghost learned_words = word_views(learned.words@);
    let ghost unlearned_spec = unlearned_words(learned_words, spells@);
    let unlearned = unlearned_of(spells, learned);
    let n = unlearned.len();
    let mut order: Vec<usize> = Vec::new();
    let mut i: usize = 0;
    while i < n
        invariant
            i <= n,
            order@ =~= Seq::new(i as nat, |j: int| j as usize),
        decreases n - i,
    {
        order.push(i);
        i = i + 1;
    }
    shuffle_indices(&mut order, rng);
    proof {
        lemma_shuffled_indices(order@, n as nat);
    }
    let k: usize = if n < 2 { n } else { 2 };
    let mut candidates: Vec<Candidate> = Vec::new();
    let mut j: usize = 0;
    while j < k
        invariant
            j <= k <= n,
            k == learn_offer_count(unlearned_spec),
            word_views(unlearned@) == unlearned_spec,
            unlearned@.len() == n,
            order@.len() == n,
            order@.no_duplicates(),
            forall|m: int| 0 <= m < order@.len() ==> #[trigger] order@[m] < n,
            candidates@.len() == j,
            forall|m: int| 0 <= m < j ==> (#[trigger] candidates@[m]).mode == SelectionMode::Learn,
            forall|m: int|
                0 <= m < j ==> (#[trigger] candidates@[m]).word@ == unlearned_spec[order@[m] as int],
        decreases k - j,
    {
        let idx = order[j];
        assert(word_views(unlearned@)[idx as int] == unlearned@[idx as int]@);
        candidates.push(Candidate { word: unlearned[idx].clone(), mode: SelectionMode::Learn });
        j = j + 1;
    }
    proof {
        let picks = Seq::new(k as nat, |m: int| order@[m] as int);
        assert(picks.no_duplicates());
        assert(forall|m: int|
            0 <= m < k ==> 0 <= #[trigger] picks[m] < unlearned_spec.len() && candidates@[m].word@
                == unlearned_spec[picks[m]]);
        assert(learn_offers(candidates@, unlearned_spec, k as int));
    }
    let unique = learned.unique_words();
    proof {
        lemma_distinct_words(learned_words);
    }
    let ghost learn_part = candidates@;
    if learned.words.len() >= UNLEARN_THRESHOLD {
        match choose_index(rng, unique.len()) {
            Some(u) => {
                assert(distinct_words(learned_words).contains(unique@[u as int]@)) by {
                    assert(word_views(unique@)[u as int] == unique@[u as int]@);
                }
                candidates.push(Candidate { word: unique[u].clone(), mode: SelectionMode::Unlearn });
            },
            None => {},
        }
    }
    assert(forall|m: int| 0 <= m < k ==> candidates@[m] == learn_part[m]);
    let ghost unlearn_part = candidates@;
    if learned.words.len() >= RELEARN_THRESHOLD {
        match choose_index(rng, unique.len()) {
            Some(u) => {
                assert(distinct_words(learned_words).contains(unique@[u as int]@)) by {
                    assert(word_views(unique@)[u as int] == unique@[u as int]@);
                }
                candidates.push(Candidate { word: unique[u].clone(), mode: SelectionMode::Relearn });
            },
            None => {},
        }
    }
    assert(forall|m: int| 0 <= m < unlearn_part.len() ==> candidates@[m] == unlearn_part[m]);
    proof {
        let picks = Seq::new(k as nat, |m: int| order@[m] as int);
        assert(picks.no_duplicates());
        assert(forall|m: int|
            0 <= m < k ==> 0 <= #[trigger] picks[m] < unlearned_spec.len() && candidates@[m].word@
                == unlearned_spec[picks[m]]);
    }
    candidates
}

/// Whether some candidate names a spell of the book.
fn any_candidate_in_book(cands: &Vec<Candidate>, spells: &[SpellDef]) -> (r: bool)
    ensures
        r == names_a_spell(cands@, spells@),
{
    let mut j: usize = 0;
    while j < cands.len()
        invariant
            j <= cands.len(),
            forall|a: int, s: int|
                0 <= a < j && 0 <= s < spells@.len() ==> #[trigger] cands@[a].word@ != #[trigger] spells@[s].word@,
        decreases cands.len() - j,
    {
        let mut s: usize = 0;
        while s < spells.len()
            invariant
                j < cands.len(),
                s <= spells.len(),
                forall|a: int, t: int|
                    0 <= a < j && 0 <= t < spells@.len() ==> #[trigger] cands@[a].word@ != #[trigger] spells@[t].word@,
                forall|t: int| 0 <= t < s ==> cands@[j as int].word@ != #[trigger] spells@[t].word@,
            decreases spells.len() - s,
        {
            if crate::text::same_text(cands[j].word.as_str(), spells[s].word.as_str()) {
                return true;
            }
            s = s + 1;
        }
        j = j + 1;
    }
    false
}

/// After a binding outside the tutorial, and unless a selection is already
/// showing, offers the cards of `selection_candidates`; the selection opens
/// only when some card names a spell of the book.
pub fn open_selection_on_binding_success(
    selection: &mut SpellSelection,
    tutorial_active: bool,
    spells: &[SpellDef],
    learned: &LearnedSpells,
    rng: &mut StdRng,
)
    ensures
        tutorial_active || old(selection).candidates is Some ==> final(selection).candidates
            == old(selection).candidates,
        !tutorial_active && old(selection).candidates is None ==> match final(selection).candidates {
            Some(cands) => valid_candidates(cands@, word_views(learned.words@), spells@) && names_a_spell(
                cands@,
                spells@,
            ),
            None => {
                &&& unlearned_words(word_views(learned.words@), spells@).len() == 0
                &&& (learned.words@.len() < UNLEARN_THRESHOLD || exists|w: Seq<char>|
                    #[trigger] word_views(learned.words@).contains(w) && !book_has_word(spells@, w))
            },
        },
{
    if tutorial_active || selection.is_open() {
        return;
    }
    let candidates = selection_candidates(spells, learned, rng);
    if !any_candidate_in_book(&candidates, spells) {
        proof {
            lemma_unlearned_from_book(word_views(learned.words@), spells@);
            let u = unlearned_words(word_views(learned.words@), spells@);
            if u.len() > 0 {
                let picks = choose|picks: Seq<int>|
                    #![trigger picks.no_duplicates()]
                    picks.len() == learn_offer_count(u) && picks.no_duplicates() && forall|j: int|
                        0 <= j < learn_offer_count(u) ==> 0 <= #[trigger] picks[j] < u.len()
                            && candidates@[j].word@ == u[picks[j]];
                assert(0 <= picks[0] < u.len());
                let s = choose|s: int| 0 <= s < spells@.len() && spells@[s].word@ == u[picks[0]];
                assert(candidates@[0].word@ == spells@[s].word@);
            } else if learned.words@.len() >= UNLEARN_THRESHOLD {
                let w = candidates@[0].word@;
                assert(word_views(learned.words@).contains(w));
                assert forall|t: int| 0 <= t < spells@.len() implies spells@[t].word@ != w by {
                    assert(candidates@[0].word@ != spells@[t].word@);
                }
                assert(!book_has_word(spells@, w));
            }
        }
        return;
    }
    selection.candidates = Some(candidates);
}

/// Every unlearned word is the word of a spell of the book.
proof fn lemma_unlearned_from_book(learned: Seq<Seq<char>>, spells: Seq<SpellDef>)
    ensures
        forall|p: int|
            0 <= p < unlearned_words(learned, spells).len() ==> exists|s: int|
                0 <= s < spells.len() && spells[s].word@ == #[trigger] unlearned_words(learned, spells)[p],
    decreases spells.len(),
{
    if spells.len() > 0 {
        lemma_unlearned_from_book(learned, spells.drop_last());
        let rest = unlearned_words(learned, spells.drop_last());
        assert forall|p: int| 0 <= p < unlearned_words(learned, spells).len() implies exists|s: int|
            0 <= s < spells.len() && spells[s].word@ == #[trigger] unlearned_words(learned, spells)[p] by {
            if p < rest.len() {
                let s = choose|s: int| 0 <= s < spells.drop_last().len() && spells.drop_last()[s].word@ == rest[p];
                assert(spells[s] == spells.drop_last()[s]);
            } else {
                assert(spells[spells.len() - 1] == spells.last());
            }
        }
    }
}

/// A card was chosen (`Some`) or the selection skipped (`None`): learning and
/// learning again add the word, forgetting drops one occurrence of it; either
/// way the selection closes.
pub fn handle_selection_click(choice: Option<&Candidate>, learned: &mut LearnedSpells, selection: &mut SpellSelection)
    ensures
        final(selection).candidates is None,
        match choice {
            None => final(learned).words@ == old(learned).words@,
            Some(c) => match c.mode {
                SelectionMode::Unlearn => {
                    &&& !word_views(old(learned).words@).contains(c.word@) ==> final(learned).words@ == old(
                        learned,
                    ).words@
                    &&& word_views(old(learned).words@).contains(c.word@) ==> exists|i: int|
                        0 <= i < old(learned).words@.len() && #[trigger] old(learned).words@[i]@ == c.word@
                            && (forall|j: int| 0 <= j < i ==> old(learned).words@[j]@ != c.word@)
                            && final(learned).words@ == old(learned).words@.remove(i)
                },
                _ => word_views(final(learned).words@) == if word_views(old(learned).words@).contains(
                    c.word@,
                ) {
                    word_views(old(learned).words@)
                } else {
                    word_views(old(learned).words@).push(c.word@)
                },
            },
        },
{
    match choice {
        Some(c) => {
            match c.mode {
                SelectionMode::Learn | SelectionMode::Relearn => {
                    learned.insert(c.word.clone());
                },
                SelectionMode::Unlearn => {
                    learned.remove_one(c.word.as_str());
                },
            }
        },
        None => {},
    }
    selection.close();
}

} // verus!
