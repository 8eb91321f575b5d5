use vstd::prelude::*;

use crate::battle::{begin_row_resolution_animation, BattleState, RuneMatchState, SlotId};
use crate::futhark::{index_of_letter, letter_to_index};

verus! {

/// One letter of a graded row, revealed on its own with the rune's sound.
#[derive(Debug, Clone, Copy, PartialEq, Eq, Structural)]
pub struct LetterStep {
    /// The slot that shows the letter.
    pub slot: SlotId,
    pub letter: char,
    pub match_state: RuneMatchState,
    /// The rune index of `letter`, which picks the sound to play.
    pub rune_index: usize,
}

/// The reveal steps of a row, over its first `n` slots: one per slot that
/// holds a rune letter, in slot order.
pub open spec fn playback_steps(
    slots: Seq<SlotId>,
    guess: Seq<Option<char>>,
    results: Seq<RuneMatchState>,
    n: nat,
) -> Seq<LetterStep>
    decreases n,
{
    if n == 0 {
        Seq::empty()
    } else {
        let i = n - 1;
        let rest = playback_steps(slots, guess, results, (n - 1) as nat);
        match guess[i] {
            Some(c) => match index_of_letter(c) {
                Some(r) => rest.push(
                    LetterStep { slot: slots[i], letter: c, match_state: results[i], rune_index: r as usize },
                ),
                None => rest,
            },
            None => rest,
        }
    }
}

/// Each slot paired with its grade, as far as both go.
pub open spec fn slot_grades(slots: Seq<SlotId>, results: Seq<RuneMatchState>) -> Seq<(SlotId, RuneMatchState)> {
    Seq::new(
        if slots.len() <= results.len() { slots.len() } else { results.len() },
        |i: int| (slots[i], results[i]),
    )
}

/// The smallest of three lengths.
pub open spec fn shortest(a: nat, b: nat, c: nat) -> nat {
    if a <= b && a <= c { a } else if b <= c { b } else { c }
}

/// A graded row being played back letter by letter.
#[derive(Debug, Clone)]
pub struct QueuedRowGrading {
    pub row_id: u32,
    pub row_slots: Vec<SlotId>,
    pub slot_results: Vec<(SlotId, RuneMatchState)>,
    pub steps: Vec<LetterStep>,
    /// The step revealed last (or to be revealed first, before the start).
    pub current_step: usize,
    pub started: bool,
}

/// What the game does for one frame of a playback.
#[derive(Debug, Clone)]
pub enum GradingAction {
    /// Nothing to show this frame.
    Wait,
    /// Tint the step's slot, announce its grade and play its rune.
    Reveal { row_id: u32, step: LetterStep },
    /// Tint every slot of the row with its grade; the row now resolves.
    Finalize { row_id: u32, slot_results: Vec<(SlotId, RuneMatchState)> },
}

/// The row grading being played back, if any.
#[derive(Debug, Clone)]
pub struct PendingRowGrading {
    pub current: Option<QueuedRowGrading>,
}

/// The playback finishes in this frame: there is nothing to reveal, or the
/// last step's time is up.
pub open spec fn finishes(q: QueuedRowGrading, step_time_up: bool) -> bool {
    q.steps@.len() == 0 || (q.started && step_time_up && q.current_step + 1 >= q.steps@.len())
}

/// One frame of a playback: the playback after it and what the game does.
/// While a row is resolving (`resolving`) nothing happens. Otherwise the first
/// step is revealed at once, each later one when the previous step's time is
/// up, and after the last one (or at once, with no step) the row is
/// finalized and the playback ends.
pub open spec fn tick_result(current: Option<QueuedRowGrading>, resolving: bool, step_time_up: bool) -> (Option<
    QueuedRowGrading,
>, GradingAction) {
    if resolving {
        (current, GradingAction::Wait)
    } else {
        match current {
            None => (None, GradingAction::Wait),
            Some(q) => if finishes(q, step_time_up) {
                (None, GradingAction::Finalize { row_id: q.row_id, slot_results: q.slot_results })
            } else if !q.started {
                (
                    Some(QueuedRowGrading { started: true, ..q }),
                    GradingAction::Reveal { row_id: q.row_id, step: q.steps@[0] },
                )
            } else if !step_time_up {
                (current, GradingAction::Wait)
            } else {
                (
                    Some(QueuedRowGrading { current_step: (q.current_step + 1) as usize, ..q }),
                    GradingAction::Reveal { row_id: q.row_id, step: q.steps@[q.current_step + 1] },
                )
            },
        }
    }
}

impl PendingRowGrading {
    /// No playback.
    pub fn default() -> (r: Self)
        ensures
            r.current is None,
    {
        PendingRowGrading { current: None }
    }

    /// A playback is under way.
    pub fn is_active(&self) -> (r: bool)
        ensures
            r == self.current is Some,
    {
        self.current.is_some()
    }

    /// The step counter points at a step, unless there are none.
    pub open spec fn well_formed(&self) -> bool {
        match self.current {
            Some(q) => q.current_step < q.steps@.len() || (q.steps@.len() == 0 && q.current_step == 0),
            None => true,
        }
    }

    /// One frame of the playback. While a graded row waits to resolve nothing
    /// happens. Otherwise the first step is revealed at once, each later one
    /// when the previous step's sound is over (`step_time_up`), and after the
    /// last one the row is finalized and starts resolving.
    pub fn tick(&mut self, battle_state: &mut BattleState, step_time_up: bool) -> (action: GradingAction)
        requires
            old(self).well_formed(),
        ensures
            final(self).well_formed(),
            final(battle_state).phase == old(battle_state).phase,
            final(battle_state).npc_type == old(battle_state).npc_type,
            final(battle_state).active_row_slots == old(battle_state).active_row_slots,
            final(battle_state).next_row_id == old(battle_state).next_row_id,
            final(battle_state).resolved_rows == old(battle_state).resolved_rows,
            (final(self).current, action) == tick_result(
                old(self).current,
                old(battle_state).pending_resolved_row is Some,
                step_time_up,
            ),
            match (old(battle_state).pending_resolved_row, old(self).current) {
                (None, Some(q)) => if finishes(q, step_time_up) {
                    &&& final(battle_state).pending_resolved_row == Some(q.row_id)
                    &&& final(battle_state).pending_settle_frames == 1
                } else {
                    *final(battle_state) == *old(battle_state)
                },
                _ => *final(battle_state) == *old(battle_state),
            },
    {
        if battle_state.pending_resolved_row.is_some() {
            return GradingAction::Wait;
        }
        let taken = self.current.take();
        let mut q = match taken {
            Some(q) => q,
            None => {
                return GradingAction::Wait;
            },
        };
        if q.steps.len() == 0 {
            let row_id = q.row_id;
            begin_row_resolution_animation(battle_state, row_id);
            return GradingAction::Finalize { row_id, slot_results: q.slot_results };
        }
        if !q.started {
            let step = q.steps[0];
            let row_id = q.row_id;
            q.started = true;
            self.current = Some(q);
            return GradingAction::Reveal { row_id, step };
        }
        if !step_time_up {
            self.current = Some(q);
            return GradingAction::Wait;
        }
        let next = q.current_step + 1;
        if next >= q.steps.len() {
            let row_id = q.row_id;
            begin_row_resolution_animation(battle_state, row_id);
            return GradingAction::Finalize { row_id, slot_results: q.slot_results };
        }
        let step = q.steps[next];
        let row_id = q.row_id;
        q.current_step = next;
        self.current = Some(q);
        GradingAction::Reveal { row_id, step }
    }
}

/// Frames of playback with each step's time up at once, from `current`: the
/// playback after `k` of them, the steps revealed, in order, and whether the
/// row was finalized.
pub open spec fn run_frames(current: Option<QueuedRowGrading>, k: nat) -> (Option<QueuedRowGrading>, Seq<LetterStep>, bool)
    decreases k,
{
    if k == 0 {
        (current, Seq::empty(), false)
    } else {
        let before = run_frames(current, (k - 1) as nat);
        let (next, action) = tick_result(before.0, false, true);
        (
            next,
            match action {
                GradingAction::Reveal { step, .. } => before.1.push(step),
                _ => before.1,
            },
            before.2 || action is Finalize,
        )
    }
}

/// Where a fresh playback stands after `k` frames, up to its number of
/// steps: started (from the first frame on) at step `k - 1`, with the first
/// `k` steps revealed.
proof fn lemma_run_frames_progress(q: QueuedRowGrading, k: nat)
    requires
        q.current_step == 0,
        !q.started,
        k <= q.steps@.len(),
    ensures
        run_frames(Some(q), k).0 == (if k == 0 {
            Some(q)
        } else {
            Some(QueuedRowGrading { started: true, current_step: (k - 1) as usize, ..q })
        }),
        run_frames(Some(q), k).1 == q.steps@.take(k as int),
        !run_frames(Some(q), k).2,
    decreases k,
{
    assert(q.steps.len() == q.steps@.len());
    if k > 0 {
        lemma_run_frames_progress(q, (k - 1) as nat);
        let before = run_frames(Some(q), (k - 1) as nat);
        assert(q.steps@.take(k as int) =~= q.steps@.take(k - 1).push(q.steps@[k - 1]));
        if k == 1 {
            assert(before.0 == Some(q));
        } else {
            let p = QueuedRowGrading { started: true, current_step: (k - 2) as usize, ..q };
            assert(before.0 == Some(p));
            assert(!finishes(p, true));
        }
    }
}

/// A row's grading, played back with each step's time up at once, reveals
/// every step exactly once and in order, and finalizes the row in the frame
/// after the last reveal: after `k` frames (up to the number of steps) the
/// first `k` steps are revealed and the row is not finalized yet; one frame
/// after all are revealed the playback is over and the row finalized.
pub proof fn lemma_playback_reveals_each_step_in_order(q: QueuedRowGrading, k: nat)
    requires
        q.current_step == 0,
        !q.started,
        k <= q.steps@.len(),
    ensures
        run_frames(Some(q), k).1 == q.steps@.take(k as int),
        !run_frames(Some(q), k).2,
        run_frames(Some(q), (q.steps@.len() + 1) as nat) == (None::<QueuedRowGrading>, q.steps@, true),
{
    assert(q.steps.len() == q.steps@.len());
    lemma_run_frames_progress(q, k);
    let n = q.steps@.len();
    lemma_run_frames_progress(q, n);
    assert(q.steps@.take(n as int) =~= q.steps@);
    if n > 0 {
        let p = QueuedRowGrading { started: true, current_step: (n - 1) as usize, ..q };
        assert(finishes(p, true));
    }
}

/// Frames of playback whose steps' times are up or not as `times` says,
/// frame after frame, from `current` (no row resolving meanwhile): the
/// playback after them, the steps revealed, in order, and whether the row was
/// finalized.
pub open spec fn run_timed(current: Option<QueuedRowGrading>, times: Seq<bool>) -> (Option<QueuedRowGrading>, Seq<LetterStep>, bool)
    decreases times.len(),
{
    if times.len() == 0 {
        (current, Seq::empty(), false)
    } else {
        let before = run_timed(current, times.drop_last());
        let (next, action) = tick_result(before.0, false, times.last());
        (
            next,
            match action {
                GradingAction::Reveal { step, .. } => before.1.push(step),
                _ => before.1,
            },
            before.2 || action is Finalize,
        )
    }
}

/// How many frames of `times` have their step's time up.
pub open spec fn count_time_up(times: Seq<bool>) -> nat
    decreases times.len(),
{
    if times.len() == 0 {
        0
    } else {
        count_time_up(times.drop_last()) + if times.last() { 1nat } else { 0nat }
    }
}

/// Where a fresh playback of `q` stands once `state` has come of it: the
/// steps revealed so far are the first ones; a finished playback revealed
/// them all; an unfinished one is at the last step revealed.
pub open spec fn playback_progress(
    q: QueuedRowGrading,
    state: (Option<QueuedRowGrading>, Seq<LetterStep>, bool),
) -> bool {
    let revealed = state.1;
    &&& revealed.len() <= q.steps@.len()
    &&& revealed == q.steps@.take(revealed.len() as int)
    &&& if state.2 {
        state.0 is None && revealed == q.steps@
    } else {
        state.0 == (if revealed.len() == 0 {
            Some(q)
        } else {
            Some(QueuedRowGrading { started: true, current_step: (revealed.len() - 1) as usize, ..q })
        })
    }
}

/// A row's grading reveals its steps in order under any timing: whatever
/// frames have their step's time up, the steps revealed are always the first
/// ones, in order, one per frame at most; after the first, a step is revealed
/// only in a frame whose time is up; and once the row is finalized every step
/// has been revealed and the playback is over.
pub proof fn lemma_playback_in_order_under_any_timing(q: QueuedRowGrading, times: Seq<bool>)
    requires
        q.current_step == 0,
        !q.started,
    ensures
        playback_progress(q, run_timed(Some(q), times)),
        run_timed(Some(q), times).1.len() <= 1 + count_time_up(times),
    decreases times.len(),
{
    assert(q.steps.len() == q.steps@.len());
    if times.len() == 0 {
        assert(q.steps@.take(0) =~= Seq::<LetterStep>::empty());
    } else {
        let init = times.drop_last();
        lemma_playback_in_order_under_any_timing(q, init);
        let before = run_timed(Some(q), init);
        let t = times.last();
        let m = before.1.len();
        let n = q.steps@.len();
        if !before.2 {
            if m == 0 {
                if n > 0 {
                    assert(q.steps@.take(1) =~= seq![q.steps@[0]]);
                    assert(before.1.push(q.steps@[0]) =~= seq![q.steps@[0]]);
                } else {
                    assert(q.steps@.take(0) =~= q.steps@);
                }
            } else {
                let p = QueuedRowGrading { started: true, current_step: (m - 1) as usize, ..q };
                assert(before.0 == Some(p));
                if t && m >= n {
                    assert(m == n);
                    assert(q.steps@.take(n as int) =~= q.steps@);
                } else if t {
                    assert(q.steps@.take((m + 1) as int) =~= q.steps@.take(m as int).push(q.steps@[m as int]));
                }
            }
        }
    }
}

/// Starts playing back the grading of row `row_id`: the slots of the row, the
/// guessed letters and their grades are read side by side, as far as all
/// three go; each slot holding a rune letter becomes a reveal step. Any
/// playback under way is replaced.
pub fn queue_row_grading_playback(
    row_id: u32,
    row_slots: &[SlotId],
    guess: &[Option<char>],
    results: &[RuneMatchState],
    pending: &mut PendingRowGrading,
)
    ensures
        final(pending).well_formed(),
        final(pending).current matches Some(q) && q.row_id == row_id && q.row_slots@ == row_slots@
            && q.slot_results@ == slot_grades(row_slots@, results@) && q.steps@ == playback_steps(
            row_slots@,
            guess@,
            results@,
            shortest(row_slots@.len(), guess@.len(), results@.len()),
        ) && q.current_step == 0 && !q.started,
{
    let mut slots_copy: Vec<SlotId> = Vec::new();
    let mut j: usize = 0;
    while j < row_slots.len()
        invariant
            j <= row_slots.len(),
            slots_copy@ =~= row_slots@.take(j as int),
        decreases row_slots.len() - j,
    {
        slots_copy.push(row_slots[j]);
        j = j + 1;
    }
    assert(slots_copy@ =~= row_slots@);

    let mut slot_results: Vec<(SlotId, RuneMatchState)> = Vec::new();
    let mut k: usize = 0;
    while k < row_slots.len() && k < results.len()
        invariant
            k <= row_slots.len(),
            k <= results.len(),
            slot_results@ =~= slot_grades(row_slots@, results@).take(k as int),
        decreases row_slots.len() - k,
    {
        slot_results.push((row_slots[k], results[k]));
        k = k + 1;
    }
    assert(slot_results@ =~= slot_grades(row_slots@, results@));

    let n: usize = if row_slots.len() <= guess.len() && row_slots.len() <= results.len() {
        row_slots.len()
    } else if guess.len() <= results.len() {
        guess.len()
    } else {
        results.len()
    };
    let mut steps: Vec<LetterStep> = Vec::new();
    let mut i: usize = 0;
    while i < n
        invariant
            i <= n,
            n == shortest(row_slots@.len(), guess@.len(), results@.len()),
            steps@ == playback_steps(row_slots@, guess@, results@, i as nat),
        decreases n - i,
    {
        match guess[i] {
            Some(letter) => {
                match letter_to_index(letter) {
                    Some(rune_index) => {
                        steps.push(LetterStep { slot: row_slots[i], letter, match_state: results[i], rune_index });
                    },
                    None => {},
                }
            },
            None => {},
        }
        i = i + 1;
    }
    pending.current = Some(
        QueuedRowGrading {
            row_id,
            row_slots: slots_copy,
            slot_results,
            steps,
            current_step: 0,
            started: false,
        },
    );
}

} // verus!
