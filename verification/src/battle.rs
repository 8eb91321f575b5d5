use vstd::prelude::*;

use crate::dictionary::Futharkation;
use crate::text::chars_of;

verus! {

/// The phase a battle is in.
#[derive(Clone, Copy, Debug, PartialEq, Eq, Structural)]
pub enum BattlePhase {
    Idle,
    Binding,
    Acting,
    Reacting,
}

impl BattlePhase {
    /// Position of the phase's marker in the phase banner: binding shares the
    /// first slot with idle.
    pub fn phase_index(&self) -> (r: usize)
        ensures
            r == match *self {
                BattlePhase::Idle => 0usize,
                BattlePhase::Binding => 0usize,
                BattlePhase::Acting => 1usize,
                BattlePhase::Reacting => 2usize,
            },
    {
        match self {
            BattlePhase::Idle => 0,
            BattlePhase::Binding => 0,
            BattlePhase::Acting => 1,
            BattlePhase::Reacting => 2,
        }
    }
}

/// The kinds of opponent.
#[derive(Clone, Copy, Debug, PartialEq, Eq, Structural)]
pub enum NpcType {
    Goblin,
    Robed,
}

/// How one rune of a guess compares with the target word.
#[derive(Clone, Copy, Debug, PartialEq, Eq, Structural)]
pub enum RuneMatchState {
    /// The rune is not in the target (or every copy is already accounted for).
    Missing,
    /// The rune is in the target, at another position.
    Present,
    /// The rune is at this position in the target.
    Correct,
}

/// Position `i` of the guess holds the target's rune at `i`.
pub open spec fn exact_at(guess: Seq<Option<char>>, target: Seq<char>, i: int) -> bool {
    0 <= i < guess.len() && i < target.len() && guess[i] == Some(target[i])
}

/// Copies of `c` among the first `n` target positions that the guess does not
/// hit exactly: the copies still available to mark as present.
pub open spec fn unmatched_in_target(
    guess: Seq<Option<char>>,
    target: Seq<char>,
    c: char,
    n: int,
) -> nat
    decreases n,
{
    if n <= 0 {
        0
    } else {
        unmatched_in_target(guess, target, c, n - 1) + if target[n - 1] == c && !exact_at(
            guess,
            target,
            n - 1,
        ) {
            1nat
        } else {
            0nat
        }
    }
}

/// Guess positions before `n` that hold `c` and are not exact hits.
pub open spec fn inexact_before(guess: Seq<Option<char>>, target: Seq<char>, c: char, n: int) -> nat
    decreases n,
{
    if n <= 0 {
        0
    } else {
        inexact_before(guess, target, c, n - 1) + if guess[n - 1] == Some(c) && !exact_at(
            guess,
            target,
            n - 1,
        ) {
            1nat
        } else {
            0nat
        }
    }
}

/// The grade of guess position `i`: exact hits are correct; otherwise the
/// copies of a rune that the target still has unmatched are handed out left
/// to right as present, and the rest are missing.
pub open spec fn grade_at(guess: Seq<Option<char>>, target: Seq<char>, i: int) -> RuneMatchState {
    if exact_at(guess, target, i) {
        RuneMatchState::Correct
    } else {
        match guess[i] {
            Some(c) => if inexact_before(guess, target, c, i) < unmatched_in_target(
                guess,
                target,
                c,
                target.len() as int,
            ) {
                RuneMatchState::Present
            } else {
                RuneMatchState::Missing
            },
            None => RuneMatchState::Missing,
        }
    }
}

/// The grades of a whole guess against `target`.
pub open spec fn grades(guess: Seq<Option<char>>, target: Seq<char>) -> Seq<RuneMatchState> {
    Seq::new(guess.len(), |i: int| grade_at(guess, target, i))
}

fn count_unmatched(guess: &[Option<char>], target: &Vec<char>, c: char) -> (r: usize)
    ensures
        r == unmatched_in_target(guess@, target@, c, target@.len() as int),
{
    let mut n: usize = 0;
    let mut k: usize = 0;
    while k < target.len()
        invariant
            k <= target.len(),
            n == unmatched_in_target(guess@, target@, c, k as int),
            n <= k,
        decreases target.len() - k,
    {
        let exact = k < guess.len() && guess[k] == Some(target[k]);
        if target[k] == c && !exact {
            n = n + 1;
        }
        k = k + 1;
    }
    n
}

fn count_inexact_before(guess: &[Option<char>], target: &Vec<char>, c: char, i: usize) -> (r: usize)
    requires
        i <= guess.len(),
    ensures
        r == inexact_before(guess@, target@, c, i as int),
{
    let mut n: usize = 0;
    let mut j: usize = 0;
    while j < i
        invariant
            j <= i <= guess.len(),
            n == inexact_before(guess@, target@, c, j as int),
            n <= j,
        decreases i - j,
    {
        let exact = j < target.len() && guess[j] == Some(target[j]);
        if guess[j] == Some(c) && !exact {
            n = n + 1;
        }
        j = j + 1;
    }
    n
}

/// Grades a guess in which some slots may be empty against the rune word
/// `target`, position by position.
///
/// The copies of a rune still unmatched in the target are counted where they
/// are needed instead of being kept in a `HashMap<char, usize>`: vstd's
/// specifications of `HashMap` hold only for key types known to obey its
/// hash-table model, which vstd states for integer and `bool` keys but not for
/// `char`.
pub fn score_guess_submission(guess: &[Option<char>], target: &str) -> (results: Vec<
    RuneMatchState,
>)
    ensures
        results@ == grades(guess@, target@),
{
    let target_chars = chars_of(target);
    let mut results: Vec<RuneMatchState> = Vec::new();
    let mut i: usize = 0;
    while i < guess.len()
        invariant
            i <= guess.len(),
            target_chars@ == target@,
            results@ == grades(guess@, target@).take(i as int),
        decreases guess.len() - i,
    {
        let exact = i < target_chars.len() && guess[i] == Some(target_chars[i]);
        let grade = if exact {
            RuneMatchState::Correct
        } else {
            match guess[i] {
                Some(c) => {
                    let used = count_inexact_before(guess, &target_chars, c, i);
                    let available = count_unmatched(guess, &target_chars, c);
                    if used < available {
                        RuneMatchState::Present
                    } else {
                        RuneMatchState::Missing
                    }
                },
                None => RuneMatchState::Missing,
            }
        };
        results.push(grade);
        assert(results@ =~= grades(guess@, target@).take(i + 1));
        i = i + 1;
    }
    assert(grades(guess@, target@).take(i as int) =~= grades(guess@, target@));
    results
}

/// Guess positions before `n` that are graded present and hold `c`.
pub open spec fn present_before(guess: Seq<Option<char>>, target: Seq<char>, c: char, n: int) -> nat
    decreases n,
{
    if n <= 0 {
        0
    } else {
        present_before(guess, target, c, n - 1) + if guess[n - 1] == Some(c) && grade_at(
            guess,
            target,
            n - 1,
        ) == RuneMatchState::Present {
            1nat
        } else {
            0nat
        }
    }
}

/// A guess that spells the target exactly is graded correct everywhere.
pub proof fn lemma_exact_guess_all_correct(target: Seq<char>)
    ensures
        forall|i: int|
            0 <= i < target.len() ==> #[trigger] grades(filled(target), target)[i]
                == RuneMatchState::Correct,
{
}

/// A guess as long as the target that is graded correct everywhere spells the
/// target exactly.
pub proof fn lemma_all_correct_is_exact(guess: Seq<Option<char>>, target: Seq<char>)
    requires
        guess.len() == target.len(),
        forall|i: int| 0 <= i < guess.len() ==> #[trigger] grades(guess, target)[i]
            == RuneMatchState::Correct,
    ensures
        guess == filled(target),
{
    assert forall|i: int| 0 <= i < guess.len() implies guess[i] == filled(target)[i] by {
        assert(grades(guess, target)[i] == RuneMatchState::Correct);
    }
    assert(guess =~= filled(target));
}

/// Present marks are never handed out beyond the copies the target has: among
/// the first `n` guess positions, the runes `c` graded present number exactly
/// the smaller of the inexact copies of `c` in the guess and the unmatched
/// copies of `c` in the target.
pub proof fn lemma_present_marks_bounded(
    guess: Seq<Option<char>>,
    target: Seq<char>,
    c: char,
    n: int,
)
    requires
        0 <= n <= guess.len(),
    ensures
        present_before(guess, target, c, n) == vstd::math::min(
            inexact_before(guess, target, c, n) as int,
            unmatched_in_target(guess, target, c, target.len() as int) as int,
        ),
        present_before(guess, target, c, n) <= unmatched_in_target(
            guess,
            target,
            c,
            target.len() as int,
        ),
    decreases n,
{
    if n > 0 {
        lemma_present_marks_bounded(guess, target, c, n - 1);
    }
}

/// The guess as a sequence of filled slots.
pub open spec fn filled(word: Seq<char>) -> Seq<Option<char>> {
    Seq::new(word.len(), |i: int| Some(word[i]))
}

/// Grades the rune word `guess` against `target`, position by position.
pub fn score_guess(guess: &str, target: &str) -> (results: Vec<RuneMatchState>)
    ensures
        results@ == grades(filled(guess@), target@),
{
    let chars = chars_of(guess);
    let mut slots: Vec<Option<char>> = Vec::new();
    let mut i: usize = 0;
    while i < chars.len()
        invariant
            i <= chars.len(),
            chars@ == guess@,
            slots@ == filled(guess@).take(i as int),
        decreases chars.len() - i,
    {
        slots.push(Some(chars[i]));
        assert(slots@ =~= filled(guess@).take(i + 1));
        i = i + 1;
    }
    assert(slots@ =~= filled(guess@));
    score_guess_submission(slots.as_slice(), target)
}

/// Number of entries of `s` equal to `state`.
pub open spec fn count_state(s: Seq<RuneMatchState>, state: RuneMatchState) -> nat
    decreases s.len(),
{
    if s.len() == 0 {
        0
    } else {
        count_state(s.drop_last(), state) + if s.last() == state {
            1nat
        } else {
            0nat
        }
    }
}

pub(crate) fn count_matching(s: &Vec<RuneMatchState>, state: RuneMatchState) -> (n: usize)
    ensures
        n == count_state(s@, state),
{
    let mut n: usize = 0;
    let mut i: usize = 0;
    while i < s.len()
        invariant
            i <= s.len(),
            n == count_state(s@.take(i as int), state),
            n <= i,
        decreases s.len() - i,
    {
        assert(s@.take(i + 1).drop_last() =~= s@.take(i as int));
        if s[i] == state {
            n = n + 1;
        }
        i = i + 1;
    }
    assert(s@.take(i as int) =~= s@);
    n
}

/// How well a guess fits a target: its correct count, then its present count.
pub open spec fn fit(guess: Seq<Option<char>>, target: Seq<char>) -> (nat, nat) {
    let g = grades(guess, target);
    (count_state(g, RuneMatchState::Correct), count_state(g, RuneMatchState::Present))
}

/// `a` is no better a fit than `b`: fewer correct runes, or as many and no
/// more present ones.
pub open spec fn fit_le(a: (nat, nat), b: (nat, nat)) -> bool {
    a.0 < b.0 || (a.0 == b.0 && a.1 <= b.1)
}

/// Index `k` is the best fit among `targets`, and the last of the equally
/// good ones.
pub open spec fn is_best_fit(guess: Seq<Option<char>>, targets: Seq<Futharkation>, k: int) -> bool {
    &&& 0 <= k < targets.len()
    &&& forall|j: int|
        0 <= j < targets.len() ==> fit_le(
            #[trigger] fit(guess, targets[j].letters@),
            fit(guess, targets[k].letters@),
        )
    &&& forall|j: int|
        k < j < targets.len() ==> !fit_le(
            fit(guess, targets[k].letters@),
            #[trigger] fit(guess, targets[j].letters@),
        )
}

/// The target that the guess fits best (most correct runes, then most present
/// ones; the last such target on a tie), with the guess's grades against it.
pub fn find_best_match(guess: &[Option<char>], targets: &[Futharkation]) -> (r: Option<
    (Futharkation, Vec<RuneMatchState>),
>)
    ensures
        r is None <==> targets.len() == 0,
        r matches Some((f, results)) ==> exists|k: int|
            is_best_fit(guess@, targets@, k) && f.word@ == targets@[k].word@ && f.letters@
                == targets@[k].letters@ && results@ == grades(guess@, targets@[k].letters@),
{
    if targets.len() == 0 {
        return None;
    }
    let mut best: usize = 0;
    let mut best_results = score_guess_submission(guess, targets[0].letters.as_str());
    let mut best_correct = count_matching(&best_results, RuneMatchState::Correct);
    let mut best_present = count_matching(&best_results, RuneMatchState::Present);
    let mut j: usize = 1;
    while j < targets.len()
        invariant
            1 <= j <= targets.len(),
            best < j,
            best_results@ == grades(guess@, targets@[best as int].letters@),
            (best_correct as nat, best_present as nat) == fit(guess@, targets@[best as int].letters@),
            forall|i: int|
                0 <= i < j ==> fit_le(
                    #[trigger] fit(guess@, targets@[i].letters@),
                    fit(guess@, targets@[best as int].letters@),
                ),
            forall|i: int|
                best < i < j ==> !fit_le(
                    fit(guess@, targets@[best as int].letters@),
                    #[trigger] fit(guess@, targets@[i].letters@),
                ),
        decreases targets.len() - j,
    {
        let results = score_guess_submission(guess, targets[j].letters.as_str());
        let correct = count_matching(&results, RuneMatchState::Correct);
        let present = count_matching(&results, RuneMatchState::Present);
        if best_correct < correct || (best_correct == correct && best_present <= present) {
            best = j;
            best_results = results;
            best_correct = correct;
            best_present = present;
        }
        j = j + 1;
    }
    assert(is_best_fit(guess@, targets@, best as int));
    let matched = Futharkation {
        word: targets[best].word.clone(),
        letters: targets[best].letters.clone(),
    };
    Some((matched, best_results))
}

/// Letters of a graded row that every copy shows missing: they are missing at
/// some position and never present or correct at another.
pub open spec fn eliminated_letter(
    guess: Seq<Option<char>>,
    results: Seq<RuneMatchState>,
    c: char,
) -> bool {
    &&& exists|i: int|
        0 <= i < guess.len() && i < results.len() && guess[i] == Some(c) && #[trigger] results[i]
            == RuneMatchState::Missing
    &&& forall|i: int|
        0 <= i < guess.len() && i < results.len() && guess[i] == Some(c) ==> #[trigger] results[i]
            == RuneMatchState::Missing
}

/// The letters that a graded row rules out: each letter of the guess whose
/// every copy was graded missing. Each such letter occurs once.
pub fn letters_eliminated_in_row(guess: &[Option<char>], results: &[RuneMatchState]) -> (r: Vec<
    char,
>)
    ensures
        forall|c: char| r@.contains(c) <==> eliminated_letter(guess@, results@, c),
        forall|a: int, b: int| 0 <= a < b < r.len() ==> r@[a] != r@[b],
{
    let n = if guess.len() < results.len() {
        guess.len()
    } else {
        results.len()
    };
    let mut out: Vec<char> = Vec::new();
    let mut i: usize = 0;
    while i < n
        invariant
            i <= n,
            n <= guess.len(),
            n <= results.len(),
            n == guess.len() || n == results.len(),
            forall|a: int, b: int| 0 <= a < b < out.len() ==> out@[a] != out@[b],
            forall|c: char|
                out@.contains(c) <==> (eliminated_letter(guess@, results@, c) && exists|k: int|
                    0 <= k < i && guess@[k] == Some(c)),
        decreases n - i,
    {
        if let Some(c) = guess[i] {
            let mut all_missing = true;
            let mut k: usize = 0;
            while k < n
                invariant
                    k <= n,
                    n <= guess.len(),
                    n <= results.len(),
                    n == guess.len() || n == results.len(),
                    all_missing <==> forall|m: int|
                        0 <= m < k && guess@[m] == Some(c) ==> results@[m] == RuneMatchState::Missing,
                decreases n - k,
            {
                if guess[k] == Some(c) && results[k] != RuneMatchState::Missing {
                    all_missing = false;
                }
                k = k + 1;
            }
            let mut seen = false;
            let mut m: usize = 0;
            while m < out.len()
                invariant
                    m <= out.len(),
                    seen <==> exists|x: int| 0 <= x < m && out@[x] == c,
                decreases out.len() - m,
            {
                if out[m] == c {
                    seen = true;
                }
                m = m + 1;
            }
            if all_missing {
                assert(results@[i as int] == RuneMatchState::Missing);
                assert(eliminated_letter(guess@, results@, c));
            } else {
                assert(!eliminated_letter(guess@, results@, c));
            }
            let ghost old_out = out@;
            proof {
                if seen {
                    let x = choose|x: int| 0 <= x < m && out@[x] == c;
                    assert(old_out.contains(c));
                }
            }
            if all_missing && !seen {
                out.push(c);
                assert(out@ == old_out.push(c));
            }
            assert forall|d: char|
                out@.contains(d) <==> (eliminated_letter(guess@, results@, d) && exists|k: int|
                    0 <= k < i + 1 && guess@[k] == Some(d)) by {
                if d == c {
                    assert(guess@[i as int] == Some(c));
                    if all_missing && !seen {
                        assert(out@[out@.len() - 1] == c);
                    }
                } else {
                    if out@.contains(d) {
                        let x = choose|x: int| 0 <= x < out@.len() && out@[x] == d;
                        if all_missing && !seen {
                            assert(x < old_out.len());
                        }
                        assert(old_out.contains(d));
                    }
                    if old_out.contains(d) {
                        let x = choose|x: int| 0 <= x < old_out.len() && old_out[x] == d;
                        assert(out@[x] == d);
                    }
                    if exists|k: int| 0 <= k < i + 1 && guess@[k] == Some(d) {
                        let k = choose|k: int| 0 <= k < i + 1 && guess@[k] == Some(d);
                        assert(k < i);
                    }
                }
            }
        }
        i = i + 1;
    }
    assert forall|c: char| eliminated_letter(guess@, results@, c) implies out@.contains(c) by {
        let k = choose|k: int|
            0 <= k < guess@.len() && k < results@.len() && guess@[k] == Some(c) && #[trigger] results@[k]
                == RuneMatchState::Missing;
        assert(0 <= k < i && guess@[k] == Some(c));
    }
    out
}

/// A slot of the active row, as the game identifies it.
pub type SlotId = u64;

/// Where a battle stands: its phase, the opponent, the row being typed, and
/// the bookkeeping of rows handed in for grading.
#[derive(Clone, Debug)]
pub struct BattleState {
    pub phase: BattlePhase,
    pub npc_type: Option<NpcType>,
    pub active_row_slots: Vec<SlotId>,
    pub pending_resolved_row: Option<u32>,
    pub pending_settle_frames: u8,
    pub next_row_id: u32,
    pub resolved_rows: usize,
}

impl BattleState {
    /// An idle battle with no opponent and no rows.
    pub fn default() -> (r: Self)
        ensures
            r.phase == BattlePhase::Idle,
            r.npc_type is None,
            r.active_row_slots@.len() == 0,
            r.pending_resolved_row is None,
            r.pending_settle_frames == 0,
            r.next_row_id == 0,
            r.resolved_rows == 0,
    {
        BattleState {
            phase: BattlePhase::Idle,
            npc_type: None,
            active_row_slots: Vec::new(),
            pending_resolved_row: None,
            pending_settle_frames: 0,
            next_row_id: 0,
            resolved_rows: 0,
        }
    }

    /// Makes `slots` the active row under the next row id, which it returns.
    pub fn open_row(&mut self, slots: Vec<SlotId>) -> (row_id: u32)
        requires
            old(self).next_row_id < u32::MAX,
        ensures
            row_id == old(self).next_row_id,
            final(self).next_row_id == old(self).next_row_id + 1,
            final(self).active_row_slots@ == slots@,
            final(self).phase == old(self).phase,
            final(self).npc_type == old(self).npc_type,
            final(self).pending_resolved_row == old(self).pending_resolved_row,
            final(self).pending_settle_frames == old(self).pending_settle_frames,
            final(self).resolved_rows == old(self).resolved_rows,
    {
        let row_id = self.next_row_id;
        self.next_row_id = self.next_row_id + 1;
        self.active_row_slots = slots;
        row_id
    }
}

/// Forgets every row: no active row, nothing pending, row ids and the count
/// of resolved rows start over. The phase and the opponent are kept.
pub fn reset_battle_state(battle_state: &mut BattleState)
    ensures
        final(battle_state).active_row_slots@.len() == 0,
        final(battle_state).pending_resolved_row is None,
        final(battle_state).pending_settle_frames == 0,
        final(battle_state).next_row_id == 0,
        final(battle_state).resolved_rows == 0,
        final(battle_state).phase == old(battle_state).phase,
        final(battle_state).npc_type == old(battle_state).npc_type,
{
    battle_state.active_row_slots.clear();
    battle_state.pending_resolved_row = None;
    battle_state.pending_settle_frames = 0;
    battle_state.next_row_id = 0;
    battle_state.resolved_rows = 0;
}

/// Marks row `row_id` as graded: it resolves after one settling frame.
pub fn begin_row_resolution_animation(battle_state: &mut BattleState, row_id: u32)
    ensures
        final(battle_state).pending_resolved_row == Some(row_id),
        final(battle_state).pending_settle_frames == 1,
        final(battle_state).phase == old(battle_state).phase,
        final(battle_state).npc_type == old(battle_state).npc_type,
        final(battle_state).active_row_slots == old(battle_state).active_row_slots,
        final(battle_state).next_row_id == old(battle_state).next_row_id,
        final(battle_state).resolved_rows == old(battle_state).resolved_rows,
{
    battle_state.pending_resolved_row = Some(row_id);
    battle_state.pending_settle_frames = 1;
}

/// One frame of waiting for a graded row: settling frames are used up first,
/// then the row resolves once it has stopped moving. Returns the row that
/// resolved in this frame.
pub fn check_row_animation_done(battle_state: &mut BattleState, still_animating: bool) -> (resolved:
    Option<u32>)
    requires
        old(battle_state).resolved_rows < usize::MAX,
    ensures
        final(battle_state).phase == old(battle_state).phase,
        final(battle_state).npc_type == old(battle_state).npc_type,
        final(battle_state).active_row_slots == old(battle_state).active_row_slots,
        final(battle_state).next_row_id == old(battle_state).next_row_id,
        match old(battle_state).pending_resolved_row {
            None => resolved is None && *final(battle_state) == *old(battle_state),
            Some(row) => if old(battle_state).pending_settle_frames > 0 {
                &&& resolved is None
                &&& final(battle_state).pending_settle_frames == old(battle_state).pending_settle_frames - 1
                &&& final(battle_state).pending_resolved_row == Some(row)
                &&& final(battle_state).resolved_rows == old(battle_state).resolved_rows
            } else if still_animating {
                resolved is None && *final(battle_state) == *old(battle_state)
            } else {
                &&& resolved == Some(row)
                &&& final(battle_state).pending_resolved_row is None
                &&& final(battle_state).pending_settle_frames == 0
                &&& final(battle_state).resolved_rows == old(battle_state).resolved_rows + 1
            },
        },
{
    let row_id = match battle_state.pending_resolved_row {
        Some(row_id) => row_id,
        None => {
            return None;
        },
    };
    if battle_state.pending_settle_frames > 0 {
        battle_state.pending_settle_frames = battle_state.pending_settle_frames - 1;
        return None;
    }
    if still_animating {
        return None;
    }
    battle_state.pending_resolved_row = None;
    battle_state.resolved_rows = battle_state.resolved_rows + 1;
    Some(row_id)
}

} // verus!
