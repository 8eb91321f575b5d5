use vstd::prelude::*;

use crate::battle::{
    grades, reset_battle_state, score_guess_submission, BattlePhase, BattleState, RuneMatchState,
};
use crate::battle_flow::{can_grade, has_rune, is_reset, plays_back, row_handed_over};
use crate::dictionary::Futharkation;
use crate::row_grading::{queue_row_grading_playback, PendingRowGrading};
use crate::rune_slots::{collect_guess_submission, row_letters, RuneSlot};
use crate::text::chars_of;

verus! {

/// What the reacting phase remembers: the word to spell against the clock,
/// whether the clock still runs, and whether the row being graded spells it.
/// (The time limit and the time spent are kept by the game.)
#[derive(Debug)]
pub struct ReactingData {
    pub target: Option<Futharkation>,
    pub active: bool,
    pub pending_success: bool,
}

/// What follows when a reacting row has been resolved.
#[derive(Debug, Clone, Copy, PartialEq, Eq, Structural)]
pub enum ReactingOutcome {
    /// The word was spelled in time; the battle goes idle.
    Succeeded,
    /// The clock has stopped (the time ran out): no new row.
    Stopped,
    /// There is no word to spell.
    NoTarget,
    /// A fresh row of this many slots is opened.
    Retry { rune_count: usize },
}

impl ReactingData {
    /// Nothing to react to.
    pub fn default() -> (r: Self)
        ensures
            r.target is None,
            !r.active,
            !r.pending_success,
    {
        ReactingData { target: None, active: false, pending_success: false }
    }
}

/// Starts reacting to `target`: the battle forgets its rows and turns to
/// reacting, the clock runs and nothing is graded yet. Returns the number of
/// slots of a row (the game opens it and starts the clock).
pub fn start_reacting(battle_state: &mut BattleState, reacting: &mut ReactingData, target: Futharkation) -> (rune_count:
    usize)
    ensures
        is_reset(*final(battle_state), *old(battle_state)),
        final(battle_state).phase == BattlePhase::Reacting,
        final(reacting).target == Some(target),
        final(reacting).active,
        !final(reacting).pending_success,
        rune_count == target.letters@.len(),
{
    reset_battle_state(battle_state);
    battle_state.phase = BattlePhase::Reacting;
    let count = chars_of(target.letters.as_str()).len();
    reacting.target = Some(target);
    reacting.active = true;
    reacting.pending_success = false;
    count
}

/// One frame of the reacting clock: while it runs, reaching the time limit
/// (`time_up`) stops it, the battle goes idle and the reaction fails, which
/// is returned.
pub fn tick_reacting_timer(battle_state: &mut BattleState, reacting: &mut ReactingData, time_up: bool) -> (failed:
    bool)
    ensures
        failed == (old(reacting).active && time_up),
        final(reacting).target == old(reacting).target,
        final(reacting).pending_success == old(reacting).pending_success,
        final(reacting).active == (old(reacting).active && !time_up),
        failed ==> final(battle_state).phase == BattlePhase::Idle,
        !failed ==> final(battle_state).phase == old(battle_state).phase,
        final(battle_state).npc_type == old(battle_state).npc_type,
        final(battle_state).active_row_slots == old(battle_state).active_row_slots,
        final(battle_state).pending_resolved_row == old(battle_state).pending_resolved_row,
        final(battle_state).pending_settle_frames == old(battle_state).pending_settle_frames,
        final(battle_state).next_row_id == old(battle_state).next_row_id,
        final(battle_state).resolved_rows == old(battle_state).resolved_rows,
{
    if !reacting.active {
        return false;
    }
    if time_up {
        reacting.active = false;
        battle_state.phase = BattlePhase::Idle;
        return true;
    }
    false
}

/// The player submits the active reacting row `row_id`, whose slots are
/// `row`: it is graded against the word and its grading starts playing back;
/// spelling the word exactly stops the clock. Nothing happens while another
/// row is resolving or being graded, once the clock has stopped, without a
/// word, or for a row without runes.
pub fn score_reacting_row_on_enter(
    battle_state: &mut BattleState,
    reacting: &mut ReactingData,
    pending: &mut PendingRowGrading,
    row_id: u32,
    row: &[RuneSlot],
) -> (graded: bool)
    requires
        old(pending).well_formed(),
    ensures
        final(pending).well_formed(),
        graded <==> can_grade(*old(battle_state), *old(pending)) && old(reacting).active
            && old(reacting).target is Some && has_rune(row@),
        !graded ==> *final(battle_state) == *old(battle_state) && *final(reacting) == *old(reacting)
            && *final(pending) == *old(pending),
        graded ==> {
            let guess = row_letters(row@);
            let results = grades(guess, old(reacting).target->0.letters@);
            let all_correct = forall|i: int| 0 <= i < results.len() ==> #[trigger] results[i] == RuneMatchState::Correct;
            &&& row_handed_over(*final(battle_state), *old(battle_state))
            &&& final(reacting).target == old(reacting).target
            &&& final(reacting).pending_success == all_correct
            &&& final(reacting).active == !all_correct
            &&& final(pending).current matches Some(q) && plays_back(
                q,
                row_id,
                old(battle_state).active_row_slots@,
                guess,
                results,
            )
        },
{
    if battle_state.pending_resolved_row.is_some() || pending.is_active() || !reacting.active {
        return false;
    }
    let letters = match &reacting.target {
        Some(t) => t.letters.clone(),
        None => {
            return false;
        },
    };
    let guess = match collect_guess_submission(row) {
        Some(g) => g,
        None => {
            return false;
        },
    };
    let results = score_guess_submission(guess.as_slice(), letters.as_str());
    let mut all_correct = true;
    let mut i: usize = 0;
    while i < results.len()
        invariant
            i <= results.len(),
            all_correct <==> forall|j: int| 0 <= j < i ==> results@[j] == RuneMatchState::Correct,
        decreases results.len() - i,
    {
        if results[i] != RuneMatchState::Correct {
            all_correct = false;
        }
        i = i + 1;
    }
    queue_row_grading_playback(
        row_id,
        battle_state.active_row_slots.as_slice(),
        guess.as_slice(),
        results.as_slice(),
        pending,
    );
    reacting.pending_success = all_correct;
    if all_correct {
        reacting.active = false;
    }
    battle_state.active_row_slots.clear();
    true
}

/// The graded reacting row has resolved; the word goes to `last_graded_word`
/// for the ledger. A success ends the reaction and the battle goes idle; a
/// stopped clock opens no new row; otherwise a fresh row of the returned size
/// is wanted.
pub fn on_reacting_row_resolved(
    battle_state: &mut BattleState,
    reacting: &mut ReactingData,
    last_graded_word: &mut Option<String>,
) -> (outcome: ReactingOutcome)
    ensures
        match old(reacting).target {
            Some(t) => *final(last_graded_word) matches Some(w) && w@ == t.word@,
            None => *final(last_graded_word) is None,
        },
        final(reacting).target == old(reacting).target,
        final(reacting).active == old(reacting).active,
        !final(reacting).pending_success,
        outcome == if old(reacting).pending_success {
            ReactingOutcome::Succeeded
        } else if !old(reacting).active {
            ReactingOutcome::Stopped
        } else {
            match old(reacting).target {
                Some(t) => ReactingOutcome::Retry { rune_count: t.letters@.len() as usize },
                None => ReactingOutcome::NoTarget,
            }
        },
        final(battle_state).phase == (if old(reacting).pending_success {
            BattlePhase::Idle
        } else {
            old(battle_state).phase
        }),
        final(battle_state).npc_type == old(battle_state).npc_type,
        final(battle_state).active_row_slots == old(battle_state).active_row_slots,
        final(battle_state).pending_resolved_row == old(battle_state).pending_resolved_row,
        final(battle_state).pending_settle_frames == old(battle_state).pending_settle_frames,
        final(battle_state).next_row_id == old(battle_state).next_row_id,
        final(battle_state).resolved_rows == old(battle_state).resolved_rows,
{
    let count: Option<usize> = match &reacting.target {
        Some(t) => {
            *last_graded_word = Some(t.word.clone());
            Some(chars_of(t.letters.as_str()).len())
        },
        None => {
            *last_graded_word = None;
            None
        },
    };
    if reacting.pending_success {
        reacting.pending_success = false;
        battle_state.phase = BattlePhase::Idle;
        return ReactingOutcome::Succeeded;
    }
    if !reacting.active {
        return ReactingOutcome::Stopped;
    }
    match count {
        Some(n) => ReactingOutcome::Retry { rune_count: n },
        None => ReactingOutcome::NoTarget,
    }
}

} // verus!
