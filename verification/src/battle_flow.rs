use vstd::prelude::*;

use crate::battle::{
    count_state, eliminated_letter, grades, is_best_fit, reset_battle_state, BattlePhase, BattleState, RuneMatchState,
};
use crate::battle_states::{spec_max_rune_count, ActingData, ActingOutcome, BindingData, BindingOutcome};
use crate::dictionary::{futharkation_from_word, spec_futharkation_from_word, Futharkation};
use crate::random::choose_index;
use rand::rngs::StdRng;
use crate::keyboard::EliminatedFutharkKeys;
use crate::row_grading::{
    playback_steps, queue_row_grading_playback, shortest, slot_grades, PendingRowGrading,
    QueuedRowGrading,
};
use crate::rune_slots::{collect_guess_submission, row_letters, RuneSlot};

verus! {

/// `after` is `before` with every row forgotten: no active row, nothing
/// resolving, row ids and the count of resolved rows back at zero. The
/// opponent stays.
pub open spec fn is_reset(after: BattleState, before: BattleState) -> bool {
    &&& after.active_row_slots@.len() == 0
    &&& after.pending_resolved_row is None
    &&& after.pending_settle_frames == 0
    &&& after.next_row_id == 0
    &&& after.resolved_rows == 0
    &&& after.npc_type == before.npc_type
}

/// A submitted row can be graded: no row is resolving and no grading is
/// being played back.
pub open spec fn can_grade(battle: BattleState, pending: PendingRowGrading) -> bool {
    battle.pending_resolved_row is None && pending.current is None
}

/// Some slot of the row holds a rune.
pub open spec fn has_rune(row: Seq<RuneSlot>) -> bool {
    exists|i: int| 0 <= i < row.len() && (#[trigger] row_letters(row)[i]) is Some
}

/// `q` plays back the grading `results` of the guess `guess` in the row
/// `row_id` made of `slots`, from its start.
pub open spec fn plays_back(
    q: QueuedRowGrading,
    row_id: u32,
    slots: Seq<u64>,
    guess: Seq<Option<char>>,
    results: Seq<RuneMatchState>,
) -> bool {
    &&& q.row_id == row_id
    &&& q.row_slots@ == slots
    &&& q.slot_results@ == slot_grades(slots, results)
    &&& q.steps@ == playback_steps(slots, guess, results, shortest(slots.len(), guess.len(), results.len()))
    &&& q.current_step == 0
    &&& !q.started
}

/// `after` is `before` with the active row handed over to grading.
pub open spec fn row_handed_over(after: BattleState, before: BattleState) -> bool {
    &&& after.active_row_slots@.len() == 0
    &&& after.phase == before.phase
    &&& after.npc_type == before.npc_type
    &&& after.pending_resolved_row == before.pending_resolved_row
    &&& after.pending_settle_frames == before.pending_settle_frames
    &&& after.next_row_id == before.next_row_id
    &&& after.resolved_rows == before.resolved_rows
}

/// Starts acting against the spells of the hand: the battle forgets its rows
/// and turns to acting, and rows get as many slots as the longest spell has
/// runes (the count is returned; the game opens the row). Without spells
/// nothing happens.
pub fn start_acting(battle_state: &mut BattleState, acting: &mut ActingData, targets: &[Futharkation]) -> (r: Option<
    usize,
>)
    ensures
        r is None <==> targets@.len() == 0,
        r is None ==> *final(battle_state) == *old(battle_state) && *final(acting) == *old(acting),
        r matches Some(n) ==> {
            &&& is_reset(*final(battle_state), *old(battle_state))
            &&& final(battle_state).phase == BattlePhase::Acting
            &&& spec_max_rune_count(targets@) == Some(n as nat)
            &&& final(acting).max_rune_count == n
            &&& !final(acting).pending_success
            &&& final(acting).pending_matched is None
            &&& final(acting).grading_word is None
        },
{
    if targets.len() == 0 {
        return None;
    }
    reset_battle_state(battle_state);
    battle_state.phase = BattlePhase::Acting;
    acting.start(targets)
}

/// The player submits the active acting row `row_id`, whose slots are `row`:
/// it is graded against the spell it fits best and its grading starts
/// playing back. Nothing happens while another row is resolving or being
/// graded, for a row without runes, or without spells.
pub fn score_acting_row_on_enter(
    battle_state: &mut BattleState,
    acting: &mut ActingData,
    pending: &mut PendingRowGrading,
    row_id: u32,
    row: &[RuneSlot],
    targets: &[Futharkation],
) -> (graded: bool)
    requires
        old(pending).well_formed(),
    ensures
        final(pending).well_formed(),
        graded <==> can_grade(*old(battle_state), *old(pending)) && has_rune(row@) && targets@.len() > 0,
        !graded ==> *final(battle_state) == *old(battle_state) && *final(acting) == *old(acting) && *final(pending) == *old(pending),
        graded ==> {
            let guess = row_letters(row@);
            &&& row_handed_over(*final(battle_state), *old(battle_state))
            &&& final(acting).max_rune_count == old(acting).max_rune_count
            &&& exists|k: int|
                #![trigger is_best_fit(guess, targets@, k)]
                {
                    let results = grades(guess, targets@[k].letters@);
                    &&& is_best_fit(guess, targets@, k)
                    &&& final(acting).pending_matched matches Some(m) && m.word@ == targets@[k].word@
                        && m.letters@ == targets@[k].letters@
                    &&& final(acting).grading_word matches Some(w) && w@ == targets@[k].word@
                    &&& final(acting).pending_success == (count_state(results, RuneMatchState::Correct)
                        == targets@[k].letters@.len())
                    &&& final(pending).current matches Some(q) && plays_back(
                        q,
                        row_id,
                        old(battle_state).active_row_slots@,
                        guess,
                        results,
                    )
                }
        },
{
    if battle_state.pending_resolved_row.is_some() || pending.is_active() {
        return false;
    }
    let guess = match collect_guess_submission(row) {
        Some(g) => g,
        None => {
            return false;
        },
    };
    let results = match acting.score_row(guess.as_slice(), targets) {
        Some(results) => results,
        None => {
            return false;
        },
    };
    queue_row_grading_playback(
        row_id,
        battle_state.active_row_slots.as_slice(),
        guess.as_slice(),
        results.as_slice(),
        pending,
    );
    battle_state.active_row_slots.clear();
    true
}

/// The graded acting row has resolved; the word graded goes to
/// `last_graded_word` for the ledger. A success casts the spell and the
/// battle goes idle; otherwise the battle stays in acting and the game opens
/// a fresh row of the returned size.
pub fn on_acting_row_resolved(
    battle_state: &mut BattleState,
    acting: &mut ActingData,
    last_graded_word: &mut Option<String>,
) -> (outcome: ActingOutcome)
    ensures
        *final(last_graded_word) == old(acting).grading_word,
        final(acting).grading_word is None,
        !final(acting).pending_success,
        final(acting).max_rune_count == old(acting).max_rune_count,
        old(acting).pending_success ==> final(acting).pending_matched is None && match outcome {
            ActingOutcome::Succeeded { matched } => match old(acting).pending_matched {
                Some(m) => matched == m,
                None => matched.word@.len() == 0 && matched.letters@.len() == 0,
            },
            ActingOutcome::Retry { .. } => false,
        },
        !old(acting).pending_success ==> final(acting).pending_matched == old(acting).pending_matched
            && outcome == (ActingOutcome::Retry { rune_count: old(acting).max_rune_count }),
        final(battle_state).phase == (if old(acting).pending_success {
            BattlePhase::Idle
        } else {
            BattlePhase::Acting
        }),
        final(battle_state).npc_type == old(battle_state).npc_type,
        final(battle_state).active_row_slots == old(battle_state).active_row_slots,
        final(battle_state).pending_resolved_row == old(battle_state).pending_resolved_row,
        final(battle_state).pending_settle_frames == old(battle_state).pending_settle_frames,
        final(battle_state).next_row_id == old(battle_state).next_row_id,
        final(battle_state).resolved_rows == old(battle_state).resolved_rows,
{
    let (word, outcome) = acting.on_row_resolved();
    *last_graded_word = word;
    match outcome {
        ActingOutcome::Succeeded { .. } => {
            battle_state.phase = BattlePhase::Idle;
        },
        ActingOutcome::Retry { .. } => {
            battle_state.phase = BattlePhase::Acting;
        },
    }
    outcome
}

/// Starts binding `target`: the battle forgets its rows and turns to binding,
/// nothing is held back and no key is ruled out. Returns the number of slots
/// of a row (the game opens it).
pub fn start_binding(
    battle_state: &mut BattleState,
    binding: &mut BindingData,
    target: Futharkation,
    eliminated_keys: &mut EliminatedFutharkKeys,
) -> (rune_count: usize)
    ensures
        is_reset(*final(battle_state), *old(battle_state)),
        final(battle_state).phase == BattlePhase::Binding,
        final(binding).target == Some(target),
        final(binding).pending_view() == Map::<u32, Seq<char>>::empty(),
        final(binding).pending_success == old(binding).pending_success,
        final(eliminated_keys)@ == Set::<char>::empty(),
        rune_count == target.letters@.len(),
{
    reset_battle_state(battle_state);
    battle_state.phase = BattlePhase::Binding;
    binding.start(target, eliminated_keys)
}

/// The player submits the active binding row `row_id`, whose slots are
/// `row`: it is graded against the binding word, the letters it rules out are
/// held back until its grading reveals them, and its grading starts playing
/// back. Nothing happens while another row is resolving or being graded,
/// without a binding word, or for a row without runes.
pub fn score_binding_row_on_enter(
    battle_state: &mut BattleState,
    binding: &mut BindingData,
    pending: &mut PendingRowGrading,
    row_id: u32,
    row: &[RuneSlot],
) -> (graded: bool)
    requires
        old(pending).well_formed(),
    ensures
        final(pending).well_formed(),
        graded <==> can_grade(*old(battle_state), *old(pending)) && old(binding).target is Some && has_rune(row@),
        !graded ==> *final(battle_state) == *old(battle_state) && *final(binding) == *old(binding) && *final(pending) == *old(pending),
        graded ==> {
            let guess = row_letters(row@);
            let results = grades(guess, old(binding).target->0.letters@);
            &&& row_handed_over(*final(battle_state), *old(battle_state))
            &&& final(binding).target == old(binding).target
            &&& final(binding).pending_success == (forall|i: int|
                0 <= i < results.len() ==> #[trigger] results[i] == RuneMatchState::Correct)
            &&& forall|x: u32| x != row_id ==> #[trigger] final(binding).pending_letters(x) == old(binding).pending_letters(x)
            &&& if exists|c: char| eliminated_letter(guess, results, c) {
                &&& final(binding).pending_letters(row_id) matches Some(ls)
                &&& forall|c: char| ls.contains(c) <==> eliminated_letter(guess, results, c)
            } else {
                final(binding).pending_letters(row_id) == old(binding).pending_letters(row_id)
            }
            &&& final(pending).current matches Some(q) && plays_back(
                q,
                row_id,
                old(battle_state).active_row_slots@,
                guess,
                results,
            )
        },
{
    if battle_state.pending_resolved_row.is_some() || pending.is_active() {
        return false;
    }
    if binding.target.is_none() {
        return false;
    }
    let guess = match collect_guess_submission(row) {
        Some(g) => g,
        None => {
            return false;
        },
    };
    let results = match binding.score_row(row_id, guess.as_slice()) {
        Some(results) => results,
        None => {
            return false;
        },
    };
    queue_row_grading_playback(
        row_id,
        battle_state.active_row_slots.as_slice(),
        guess.as_slice(),
        results.as_slice(),
        pending,
    );
    battle_state.active_row_slots.clear();
    true
}

/// The graded binding row has resolved. Without a binding word nothing
/// happens. Otherwise the binding word goes to `last_graded_word` for the
/// ledger; a success ends the binding and the battle goes idle, and a miss
/// leaves it binding, with a fresh row of the returned size to open.
pub fn on_binding_row_resolved(
    battle_state: &mut BattleState,
    binding: &mut BindingData,
    last_graded_word: &mut Option<String>,
) -> (outcome: BindingOutcome)
    ensures
        final(binding).target == old(binding).target,
        final(binding).pending_view() == old(binding).pending_view(),
        final(battle_state).npc_type == old(battle_state).npc_type,
        final(battle_state).active_row_slots == old(battle_state).active_row_slots,
        final(battle_state).pending_resolved_row == old(battle_state).pending_resolved_row,
        final(battle_state).pending_settle_frames == old(battle_state).pending_settle_frames,
        final(battle_state).next_row_id == old(battle_state).next_row_id,
        final(battle_state).resolved_rows == old(battle_state).resolved_rows,
        match old(binding).target {
            None => {
                &&& outcome == BindingOutcome::NoTarget
                &&& *final(last_graded_word) == *old(last_graded_word)
                &&& final(binding).pending_success == old(binding).pending_success
                &&& final(battle_state).phase == old(battle_state).phase
            },
            Some(t) => {
                &&& *final(last_graded_word) matches Some(w) && w@ == t.word@
                &&& !final(binding).pending_success
                &&& outcome == if old(binding).pending_success {
                    BindingOutcome::Succeeded
                } else {
                    BindingOutcome::Retry { rune_count: t.letters@.len() as usize }
                }
                &&& final(battle_state).phase == if old(binding).pending_success {
                    BattlePhase::Idle
                } else {
                    old(battle_state).phase
                }
            },
        },
{
    let (word, outcome) = binding.on_row_resolved();
    match outcome {
        BindingOutcome::NoTarget => {},
        BindingOutcome::Succeeded => {
            *last_graded_word = word;
            battle_state.phase = BattlePhase::Idle;
        },
        BindingOutcome::Retry { .. } => {
            *last_graded_word = word;
        },
    }
    outcome
}

/// When a battle starts, one of the opponent's binding words is picked at
/// random and spelled with the dictionary, ready for binding; the position
/// of the word picked is returned. Without binding words nothing happens; a
/// word the dictionary cannot spell leaves the binding as it was.
pub fn setup_binding_target_on_battle_start(
    binding: &mut BindingData,
    binding_words: &[String],
    default_dictionary: &str,
    rng: &mut StdRng,
) -> (picked: Option<usize>)
    requires
        default_dictionary@.len() < usize::MAX,
    ensures
        picked is None <==> binding_words@.len() == 0,
        final(binding).pending_success == old(binding).pending_success,
        final(binding).pending_view() == old(binding).pending_view(),
        match picked {
            None => final(binding).target == old(binding).target,
            Some(k) => k < binding_words@.len() && match spec_futharkation_from_word(
                default_dictionary@,
                binding_words@[k as int]@,
            ) {
                Ok((w, l)) => final(binding).target matches Some(t) && t.word@ == w && t.letters@ == l,
                Err(_) => final(binding).target == old(binding).target,
            },
        },
{
    let k = match choose_index(rng, binding_words.len()) {
        Some(k) => k,
        None => {
            return None;
        },
    };
    match futharkation_from_word(default_dictionary, binding_words[k].as_str()) {
        Ok(f) => {
            binding.target = Some(f);
        },
        Err(_) => {},
    }
    Some(k)
}

} // verus!
