use vstd::prelude::*;

use crate::battle::{
    RuneMatchState, count_state, find_best_match, grades, is_best_fit, letters_eliminated_in_row,
    eliminated_letter, score_guess_submission,
};
use crate::dictionary::Futharkation;
use crate::keyboard::EliminatedFutharkKeys;
use crate::spellbook::SpellDef;
use crate::text::chars_of;
use std::collections::HashMap;

verus! {

/// Number of runes in the longest target, or `None` without targets.
pub open spec fn spec_max_rune_count(targets: Seq<Futharkation>) -> Option<nat>
    decreases targets.len(),
{
    if targets.len() == 0 {
        None
    } else {
        let last = targets.last().letters@.len();
        match spec_max_rune_count(targets.drop_last()) {
            None => Some(last),
            Some(m) => Some(if m < last { last } else { m }),
        }
    }
}

/// How many slots an acting row needs: as many as the longest target has
/// runes. Without targets there is no row to open.
pub fn max_rune_count(targets: &[Futharkation]) -> (r: Option<usize>)
    ensures
        r matches Some(n) ==> spec_max_rune_count(targets@) == Some(n as nat),
        r is None <==> targets.len() == 0,
{
    let mut best: Option<usize> = None;
    let mut i: usize = 0;
    while i < targets.len()
        invariant
            i <= targets.len(),
            best matches Some(n) ==> spec_max_rune_count(targets@.take(i as int)) == Some(n as nat),
            best is None <==> i == 0,
        decreases targets.len() - i,
    {
        assert(targets@.take(i + 1).drop_last() =~= targets@.take(i as int));
        let n = chars_of(targets[i].letters.as_str()).len();
        best = match best {
            None => Some(n),
            Some(m) => Some(if m < n { n } else { m }),
        };
        i = i + 1;
    }
    assert(targets@.take(i as int) =~= targets@);
    best
}

/// The targets that an acting row can cast: the spells of the hand.
pub fn targets_from_hand(hand: &[SpellDef]) -> (r: Vec<Futharkation>)
    ensures
        r@.len() == hand@.len(),
        forall|k: int| 0 <= k < hand@.len() ==> #[trigger] r@[k].word@ == hand@[k].word@ && r@[k].letters@
            == hand@[k].futharkation@,
{
    let mut out: Vec<Futharkation> = Vec::new();
    let mut i: usize = 0;
    while i < hand.len()
        invariant
            i <= hand.len(),
            out@.len() == i,
            forall|k: int| 0 <= k < i ==> #[trigger] out@[k].word@ == hand@[k].word@ && out@[k].letters@
                == hand@[k].futharkation@,
        decreases hand.len() - i,
    {
        out.push(hand[i].as_futharkation());
        i = i + 1;
    }
    out
}

/// The spells at the front of a hand, as shown by the book: up to four.
pub fn first_four_entries(hand: &[SpellDef]) -> (r: [Option<Futharkation>; 4])
    ensures
        forall|k: int|
            0 <= k < 4 ==> match #[trigger] r@[k] {
                Some(f) => k < hand@.len() && f.word@ == hand@[k].word@ && f.letters@
                    == hand@[k].futharkation@,
                None => k >= hand@.len(),
            },
{
    let e0 = if hand.len() > 0 { Some(hand[0].as_futharkation()) } else { None };
    let e1 = if hand.len() > 1 { Some(hand[1].as_futharkation()) } else { None };
    let e2 = if hand.len() > 2 { Some(hand[2].as_futharkation()) } else { None };
    let e3 = if hand.len() > 3 { Some(hand[3].as_futharkation()) } else { None };
    let r = [e0, e1, e2, e3];
    assert(r@[0] == e0 && r@[1] == e1 && r@[2] == e2 && r@[3] == e3);
    r
}

/// What the acting phase remembers about the row being graded.
#[derive(Debug)]
pub struct ActingData {
    pub max_rune_count: usize,
    pub pending_success: bool,
    pub pending_matched: Option<Futharkation>,
    pub grading_word: Option<String>,
}

/// What follows when an acting row has been resolved.
#[derive(Debug)]
pub enum ActingOutcome {
    /// The spell `matched` was cast exactly; the battle goes idle.
    Succeeded { matched: Futharkation },
    /// No spell was cast; a fresh row of this many slots is opened.
    Retry { rune_count: usize },
}

impl ActingData {
    /// Nothing pending.
    pub fn default() -> (r: Self)
        ensures
            r.max_rune_count == 0,
            !r.pending_success,
            r.pending_matched is None,
            r.grading_word is None,
    {
        ActingData { max_rune_count: 0, pending_success: false, pending_matched: None, grading_word: None }
    }

    /// Starts acting against `targets`: rows get as many slots as the longest
    /// target. Returns that slot count, or `None` (changing nothing) when
    /// there is no target.
    pub fn start(&mut self, targets: &[Futharkation]) -> (r: Option<usize>)
        ensures
            r is None <==> targets.len() == 0,
            r is None ==> *final(self) == *old(self),
            r matches Some(n) ==> {
                &&& spec_max_rune_count(targets@) == Some(n as nat)
                &&& final(self).max_rune_count == n
                &&& !final(self).pending_success
                &&& final(self).pending_matched is None
                &&& final(self).grading_word is None
            },
    {
        let count = match max_rune_count(targets) {
            Some(n) => n,
            None => {
                return None;
            },
        };
        self.max_rune_count = count;
        self.pending_success = false;
        self.pending_matched = None;
        self.grading_word = None;
        Some(count)
    }

    /// Grades a submitted row against the best-fitting target. The row is a
    /// success when every rune of that target is matched at its position.
    /// Returns the grades, or `None` (changing nothing) without targets.
    pub fn score_row(&mut self, guess: &[Option<char>], targets: &[Futharkation]) -> (r: Option<Vec<RuneMatchState>>)
        ensures
            r is None <==> targets.len() == 0,
            r is None ==> *final(self) == *old(self),
            r matches Some(results) ==> exists|k: int| {
                &&& is_best_fit(guess@, targets@, k)
                &&& results@ == grades(guess@, targets@[k].letters@)
                &&& final(self).pending_matched matches Some(m) && m.word@ == targets@[k].word@
                    && m.letters@ == targets@[k].letters@
                &&& final(self).grading_word matches Some(w) && w@ == targets@[k].word@
                &&& final(self).pending_success == (count_state(results@, RuneMatchState::Correct)
                    == targets@[k].letters@.len())
            },
            final(self).max_rune_count == old(self).max_rune_count,
    {
        let (best_target, best_results) = match find_best_match(guess, targets) {
            Some(found) => found,
            None => {
                return None;
            },
        };
        let correct = crate::battle::count_matching(&best_results, RuneMatchState::Correct);
        let letters = chars_of(best_target.letters.as_str());
        self.grading_word = Some(best_target.word.clone());
        self.pending_success = correct == letters.len();
        self.pending_matched = Some(best_target);
        Some(best_results)
    }

    /// The row has resolved: a pending success casts the matched spell and
    /// clears the success; otherwise a fresh row is wanted. Also hands back
    /// the word graded in the row, for the ledger.
    pub fn on_row_resolved(&mut self) -> (r: (Option<String>, ActingOutcome))
        ensures
            r.0 == old(self).grading_word,
            final(self).grading_word is None,
            final(self).max_rune_count == old(self).max_rune_count,
            !final(self).pending_success,
            old(self).pending_success ==> final(self).pending_matched is None && match r.1 {
                ActingOutcome::Succeeded { matched } => match old(self).pending_matched {
                    Some(m) => matched == m,
                    None => matched.word@.len() == 0 && matched.letters@.len() == 0,
                },
                ActingOutcome::Retry { .. } => false,
            },
            !old(self).pending_success ==> final(self).pending_matched == old(self).pending_matched
                && r.1 == (ActingOutcome::Retry { rune_count: old(self).max_rune_count }),
    {
        let word = self.grading_word.take();
        if self.pending_success {
            let matched = match self.pending_matched.take() {
                Some(m) => m,
                None => Futharkation { word: String::new(), letters: String::new() },
            };
            self.pending_success = false;
            return (word, ActingOutcome::Succeeded { matched });
        }
        (word, ActingOutcome::Retry { rune_count: self.max_rune_count })
    }
}

/// What the binding phase remembers.
#[derive(Debug)]
pub struct BindingData {
    pub target: Option<Futharkation>,
    pub pending_success: bool,
    /// The letters held back for each row, until its grading reveals them.
    /// Each row's letters are a `Vec` without duplicates rather than a
    /// `HashSet<char>`: vstd's specifications of `HashSet` hold only for key
    /// types known to obey its hash-table model, which vstd states for
    /// integer and `bool` keys but not for `char`.
    pub pending_eliminations_by_row: HashMap<u32, Vec<char>>,
}

/// What follows when a binding row has been resolved.
#[derive(Debug, Clone, Copy, PartialEq, Eq, Structural)]
pub enum BindingOutcome {
    /// There is nothing to bind.
    NoTarget,
    /// The binding word was spelled; the battle goes idle.
    Succeeded,
    /// A fresh row of this many slots is opened.
    Retry { rune_count: usize },
}

/// `s` without every occurrence of `c`.
pub open spec fn without_letter(s: Seq<char>, c: char) -> Seq<char>
    decreases s.len(),
{
    if s.len() == 0 {
        s
    } else if s.last() == c {
        without_letter(s.drop_last(), c)
    } else {
        without_letter(s.drop_last(), c).push(s.last())
    }
}

impl BindingData {
    /// Nothing to bind.
    pub fn default() -> (r: Self)
        ensures
            r.target is None,
            !r.pending_success,
            r.pending_view() == Map::<u32, Seq<char>>::empty(),
    {
        broadcast use vstd::std_specs::hash::group_hash_axioms;

        let r = BindingData { target: None, pending_success: false, pending_eliminations_by_row: HashMap::new() };
        assert(r.pending_view() =~= Map::<u32, Seq<char>>::empty());
        r
    }

    /// The held-back letters, row by row.
    pub open spec fn pending_view(&self) -> Map<u32, Seq<char>> {
        self.pending_eliminations_by_row@.map_values(|v: Vec<char>| v@)
    }

    /// The letters held back for `row_id`.
    pub open spec fn pending_letters(&self, row_id: u32) -> Option<Seq<char>> {
        if self.pending_view().contains_key(row_id) {
            Some(self.pending_view()[row_id])
        } else {
            None
        }
    }

    /// Starts binding `target`: nothing is held back any more, and the keyboard
    /// is cleared of ruled-out keys. Returns the number of slots of a row.
    pub fn start(&mut self, target: Futharkation, eliminated_keys: &mut EliminatedFutharkKeys) -> (rune_count: usize)
        ensures
            final(self).target == Some(target),
            final(self).pending_view() == Map::<u32, Seq<char>>::empty(),
            final(self).pending_success == old(self).pending_success,
            final(eliminated_keys)@ == Set::<char>::empty(),
            rune_count == target.letters@.len(),
    {
        broadcast use vstd::std_specs::hash::group_hash_axioms;

        let count = chars_of(target.letters.as_str()).len();
        self.target = Some(target);
        self.pending_eliminations_by_row = HashMap::new();
        assert(self.pending_view() =~= Map::<u32, Seq<char>>::empty());
        eliminated_keys.clear();
        count
    }

    /// Grades row `row_id` against the binding word. The letters the row
    /// rules out are held back for the row until its grading reveals them.
    /// Returns the grades, or `None` (changing nothing) without a binding word.
    pub fn score_row(&mut self, row_id: u32, guess: &[Option<char>]) -> (r: Option<Vec<RuneMatchState>>)
        ensures
            r is None <==> old(self).target is None,
            r is None ==> *final(self) == *old(self),
            final(self).target == old(self).target,
            r matches Some(results) ==> {
                let target = old(self).target->0.letters@;
                &&& results@ == grades(guess@, target)
                &&& final(self).pending_success == (forall|i: int| 0 <= i < results@.len() ==> #[trigger] results@[i]
                    == RuneMatchState::Correct)
                &&& forall|x: u32| x != row_id ==> #[trigger] final(self).pending_letters(x) == old(self).pending_letters(x)
                &&& if exists|c: char| eliminated_letter(guess@, results@, c) {
                    &&& final(self).pending_letters(row_id) matches Some(ls)
                    &&& forall|c: char| ls.contains(c) <==> eliminated_letter(guess@, results@, c)
                } else {
                    final(self).pending_letters(row_id) == old(self).pending_letters(row_id)
                }
            },
    {
        broadcast use vstd::std_specs::hash::group_hash_axioms;

        let letters = match &self.target {
            Some(target) => target.letters.clone(),
            None => {
                return None;
            },
        };
        let results = score_guess_submission(guess, letters.as_str());
        let eliminated = letters_eliminated_in_row(guess, results.as_slice());
        let mut all_correct = true;
        let mut i: usize = 0;
        while i < results.len()
            invariant
                i <= results.len(),
                all_correct <==> forall|j: int| 0 <= j < i ==> results@[j] == RuneMatchState::Correct,
            decreases results.len() - i,
        {
            if results[i] != RuneMatchState::Correct {
                all_correct = false;
            }
            i = i + 1;
        }
        if eliminated.len() > 0 {
            assert(eliminated@.contains(eliminated@[0]));
            assert(eliminated_letter(guess@, results@, eliminated@[0]));
            let ghost ls = eliminated@;
            self.pending_eliminations_by_row.insert(row_id, eliminated);
            assert(self.pending_view() =~= old(self).pending_view().insert(row_id, ls));
        } else {
            assert forall|c: char| !eliminated_letter(guess@, results@, c) by {
                assert(!eliminated@.contains(c));
            }
        }
        self.pending_success = all_correct;
        Some(results)
    }

    /// Grading revealed `letter` of row `row_id` as `match_state`. A missing
    /// letter that is held back for the row is ruled out on the keyboard and
    /// released; a row with nothing left held back is forgotten.
    pub fn apply_graded_letter(
        &mut self,
        row_id: u32,
        letter: char,
        match_state: RuneMatchState,
        eliminated_keys: &mut EliminatedFutharkKeys,
    )
        ensures
            final(self).target == old(self).target,
            final(self).pending_success == old(self).pending_success,
            match (match_state, old(self).pending_letters(row_id)) {
                (RuneMatchState::Missing, Some(ls)) => {
                    &&& final(eliminated_keys)@ == if ls.contains(letter) {
                        old(eliminated_keys)@.insert(letter)
                    } else {
                        old(eliminated_keys)@
                    }
                    &&& final(self).pending_letters(row_id) == if without_letter(ls, letter).len() == 0 {
                        None
                    } else {
                        Some(without_letter(ls, letter))
                    }
                    &&& forall|x: u32| x != row_id ==> #[trigger] final(self).pending_letters(x)
                        == old(self).pending_letters(x)
                },
                _ => final(self).pending_view() == old(self).pending_view() && final(eliminated_keys)@
                    == old(eliminated_keys)@,
            },
    {
        broadcast use vstd::std_specs::hash::group_hash_axioms;

        if match_state != RuneMatchState::Missing {
            return;
        }
        let held = match self.pending_eliminations_by_row.remove(&row_id) {
            Some(held) => held,
            None => {
                return;
            },
        };
        let ghost ls = held@;
        assert(old(self).pending_letters(row_id) == Some(ls));
        assert(self.pending_view() =~= old(self).pending_view().remove(row_id));
        let mut kept: Vec<char> = Vec::new();
        let mut found = false;
        let mut i: usize = 0;
        while i < held.len()
            invariant
                ls == held@,
                i <= ls.len(),
                kept@ == without_letter(ls.take(i as int), letter),
                found <==> ls.take(i as int).contains(letter),
            decreases ls.len() - i,
        {
            let c = held[i];
            assert(ls.take(i + 1).drop_last() =~= ls.take(i as int));
            if c != letter {
                kept.push(c);
            } else {
                found = true;
            }
            proof {
                let t0 = ls.take(i as int);
                if t0.contains(letter) {
                    let w = choose|w: int| 0 <= w < t0.len() && t0[w] == letter;
                    assert(ls.take(i + 1)[w] == letter);
                }
                let t1 = ls.take(i + 1);
                if t1.contains(letter) && c != letter {
                    let w = choose|w: int| 0 <= w < t1.len() && t1[w] == letter;
                    assert(w < i);
                    assert(ls.take(i as int)[w] == letter);
                }
                if c == letter {
                    assert(ls.take(i + 1)[i as int] == letter);
                }
            }
            i = i + 1;
        }
        assert(ls.take(i as int) =~= ls);
        if found {
            eliminated_keys.insert(letter);
        }
        if kept.len() > 0 {
            let ghost kv = kept@;
            self.pending_eliminations_by_row.insert(row_id, kept);
            assert(self.pending_view() =~= old(self).pending_view().insert(row_id, kv));
        }
    }

    /// The row has resolved. Without a binding word nothing happens. A pending
    /// success is used up and ends the binding; otherwise a fresh row of the
    /// word's length is wanted. Also hands back the word, for the ledger.
    pub fn on_row_resolved(&mut self) -> (r: (Option<String>, BindingOutcome))
        ensures
            final(self).target == old(self).target,
            final(self).pending_view() == old(self).pending_view(),
            match old(self).target {
                None => r == (None::<String>, BindingOutcome::NoTarget) && final(self).pending_success
                    == old(self).pending_success,
                Some(t) => {
                    &&& r.0 matches Some(w) && w@ == t.word@
                    &&& !final(self).pending_success
                    &&& r.1 == if old(self).pending_success {
                        BindingOutcome::Succeeded
                    } else {
                        BindingOutcome::Retry { rune_count: t.letters@.len() as usize }
                    }
                },
            },
    {
        let (word, count) = match &self.target {
            Some(target) => (target.word.clone(), chars_of(target.letters.as_str()).len()),
            None => {
                return (None, BindingOutcome::NoTarget);
            },
        };
        if self.pending_success {
            self.pending_success = false;
            return (Some(word), BindingOutcome::Succeeded);
        }
        (Some(word), BindingOutcome::Retry { rune_count: count })
    }
}

/// Removing a letter keeps only letters that were there.
pub proof fn lemma_without_letter_subset(s: Seq<char>, c: char)
    ensures
        forall|d: char| #[trigger] without_letter(s, c).contains(d) ==> s.contains(d) && d != c,
    decreases s.len(),
{
    if s.len() > 0 {
        lemma_without_letter_subset(s.drop_last(), c);
        assert forall|d: char| #[trigger] without_letter(s, c).contains(d) implies s.contains(d) && d != c by {
            let w = without_letter(s, c);
            let x = choose|x: int| 0 <= x < w.len() && w[x] == d;
            let rest = without_letter(s.drop_last(), c);
            if x < rest.len() {
                assert(rest.contains(d));
                let y = choose|y: int| 0 <= y < s.drop_last().len() && s.drop_last()[y] == d;
                assert(s[y] == d);
            } else {
                assert(s[s.len() - 1] == d);
            }
        }
    }
}

/// A key is ruled out during binding only for a letter whose every copy in
/// its graded row was missing: when the letters held back for the row are
/// such letters, grading news can add no other key, and what stays held back
/// is still such letters.
pub proof fn lemma_ruled_out_keys_were_missing(
    guess: Seq<Option<char>>,
    results: Seq<RuneMatchState>,
    held: Seq<char>,
    letter: char,
    keys_before: Set<char>,
    keys_after: Set<char>,
)
    requires
        forall|c: char| #[trigger] held.contains(c) ==> eliminated_letter(guess, results, c),
        keys_after == if held.contains(letter) {
            keys_before.insert(letter)
        } else {
            keys_before
        },
    ensures
        forall|c: char| #[trigger] keys_after.contains(c) && !keys_before.contains(c) ==> eliminated_letter(
            guess,
            results,
            c,
        ),
        forall|c: char| #[trigger] without_letter(held, letter).contains(c) ==> eliminated_letter(
            guess,
            results,
            c,
        ),
{
    lemma_without_letter_subset(held, letter);
}

} // verus!
