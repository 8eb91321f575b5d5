use vstd::prelude::*;

use crate::battle::BattlePhase;
use crate::futhark::{index_of_letter, letter_at, letter_to_index};

verus! {

/// Sprite-sheet index of a rune slot's background.
pub const SPRITE_SLOT_BACKGROUND: usize = 255;

/// Sprite-sheet offset of the primary rune glyphs.
pub const SPRITE_PRIMARY_RUNE_OFFSET: usize = 32;

/// Sprite-sheet offset of the alternate rune glyph pages.
pub const SPRITE_ALTERNATE_RUNE_OFFSET: usize = 64;

/// Glyphs on one sprite page.
pub const RUNES_PER_SET: usize = 25;

/// Number of alternate glyph pages.
pub const ALTERNATE_SET_PAGES: usize = 2;

/// Which glyphs a rune slot draws its rune with.
#[derive(Clone, Copy, Debug, PartialEq, Eq, Structural)]
pub enum RuneSlotForegroundSet {
    Primary,
    Alternate { page: usize },
}

/// The sprite index of rune `rune_index` in glyph set `set`: rune indices wrap
/// around the alphabet, and alternate pages past the last are clamped to it.
pub open spec fn spec_sprite_index(set: RuneSlotForegroundSet, rune_index: nat) -> nat {
    let normalized = rune_index % 25;
    match set {
        RuneSlotForegroundSet::Primary => 32 + normalized,
        RuneSlotForegroundSet::Alternate { page } => {
            let clamped = if page < 1 { page as nat } else { 1nat };
            64 + clamped * 25 + normalized
        },
    }
}

impl RuneSlotForegroundSet {
    /// The primary glyphs.
    pub fn default() -> (r: Self)
        ensures
            r == RuneSlotForegroundSet::Primary,
    {
        RuneSlotForegroundSet::Primary
    }

    /// The sprite index that draws rune `rune_index` in this glyph set.
    pub fn sprite_index_for_rune(self, rune_index: usize) -> (r: usize)
        ensures
            r == spec_sprite_index(self, rune_index as nat),
            self == RuneSlotForegroundSet::Primary ==> 32 <= r < 57,
            self != RuneSlotForegroundSet::Primary ==> 64 <= r < 114,
    {
        let normalized_index = rune_index % RUNES_PER_SET;
        match self {
            RuneSlotForegroundSet::Primary => SPRITE_PRIMARY_RUNE_OFFSET + normalized_index,
            RuneSlotForegroundSet::Alternate { page } => {
                let clamped_page = if page < ALTERNATE_SET_PAGES - 1 {
                    page
                } else {
                    ALTERNATE_SET_PAGES - 1
                };
                SPRITE_ALTERNATE_RUNE_OFFSET + clamped_page * RUNES_PER_SET + normalized_index
            },
        }
    }
}

/// One slot of a rune word: the rune it holds, if any, and its glyph set.
#[derive(Clone, Copy, Debug, PartialEq, Eq, Structural)]
pub struct RuneSlot {
    pub rune_index: Option<usize>,
    pub foreground_set: RuneSlotForegroundSet,
}

/// What becomes of runes typed while a submitted row is being graded.
#[derive(Clone, Copy, Debug, PartialEq, Eq, Structural)]
pub enum TypedInputPolicy {
    AcceptNormally,
    Ignore,
    QueueForNextWord,
}

/// The policy for typed runes. `battle` is the battle's phase and whether its
/// active row is empty, `grading_active` whether a row is being graded, and
/// `acting_pending_success` whether the acting row just graded is a success.
pub open spec fn spec_typed_input_policy(
    battle: Option<(BattlePhase, bool)>,
    grading_active: Option<bool>,
    acting_pending_success: Option<bool>,
) -> TypedInputPolicy {
    match (battle, grading_active) {
        (Some((phase, row_empty)), Some(active)) => {
            if !(active || row_empty) {
                TypedInputPolicy::AcceptNormally
            } else if phase == BattlePhase::Acting {
                if acting_pending_success == Some(true) {
                    TypedInputPolicy::Ignore
                } else {
                    TypedInputPolicy::QueueForNextWord
                }
            } else {
                TypedInputPolicy::AcceptNormally
            }
        },
        _ => TypedInputPolicy::AcceptNormally,
    }
}

/// Decides what becomes of typed runes: while an acting row is being graded
/// (or no row is open yet) they are kept for the next word, unless that row
/// is a success, when they are dropped; otherwise they are typed as usual.
pub fn typed_input_during_grading_behavior(
    battle: Option<(BattlePhase, bool)>,
    grading_active: Option<bool>,
    acting_pending_success: Option<bool>,
) -> (r: TypedInputPolicy)
    ensures
        r == spec_typed_input_policy(battle, grading_active, acting_pending_success),
{
    let (phase, row_empty) = match battle {
        Some(state) => state,
        None => {
            return TypedInputPolicy::AcceptNormally;
        },
    };
    let active = match grading_active {
        Some(active) => active,
        None => {
            return TypedInputPolicy::AcceptNormally;
        },
    };
    if !(active || row_empty) {
        return TypedInputPolicy::AcceptNormally;
    }
    match phase {
        BattlePhase::Acting => {
            let pending_success = match acting_pending_success {
                Some(b) => b,
                None => false,
            };
            if pending_success {
                TypedInputPolicy::Ignore
            } else {
                TypedInputPolicy::QueueForNextWord
            }
        },
        _ => TypedInputPolicy::AcceptNormally,
    }
}

/// The letters of a row of slots, `None` for an empty slot or one whose rune
/// index is past the alphabet.
pub open spec fn row_letters(slots: Seq<RuneSlot>) -> Seq<Option<char>> {
    Seq::new(
        slots.len(),
        |i: int|
            match slots[i].rune_index {
                Some(r) => letter_at(r as int),
                None => None,
            },
    )
}

/// The guess a row of slots spells, or `None` when no slot holds a letter.
pub fn collect_guess_submission(slots: &[RuneSlot]) -> (r: Option<Vec<Option<char>>>)
    ensures
        r matches Some(g) ==> g@ == row_letters(slots@),
        r is None <==> forall|i: int| 0 <= i < slots.len() ==> #[trigger] row_letters(slots@)[i] is None,
{
    let mut guess: Vec<Option<char>> = Vec::new();
    let mut has_any_rune = false;
    let mut i: usize = 0;
    while i < slots.len()
        invariant
            i <= slots.len(),
            guess@ == row_letters(slots@).take(i as int),
            has_any_rune <==> exists|j: int| 0 <= j < i && (#[trigger] row_letters(slots@)[j]) is Some,
        decreases slots.len() - i,
    {
        let letter = match slots[i].rune_index {
            Some(r) => crate::futhark::index_to_letter(r),
            None => None,
        };
        assert(row_letters(slots@)[i as int] == letter);
        if letter.is_some() {
            has_any_rune = true;
        }
        guess.push(letter);
        assert(guess@ =~= row_letters(slots@).take(i + 1));
        i = i + 1;
    }
    assert(guess@ =~= row_letters(slots@));
    if has_any_rune {
        Some(guess)
    } else {
        None
    }
}

/// A rune word being typed: its slots, left to right, each linked to its
/// neighbours, and the slot that typing goes to.
#[derive(Clone, Debug)]
pub struct RuneWord {
    pub slots: Vec<RuneSlot>,
    pub active: Option<usize>,
}

impl RuneWord {
    /// The active slot, if any, is one of the word's slots.
    pub open spec fn well_formed(&self) -> bool {
        self.active matches Some(a) ==> a < self.slots.len()
    }

    /// A word of `count` empty slots in glyph set `set`, typing into the first.
    pub fn new(count: usize, set: RuneSlotForegroundSet) -> (w: RuneWord)
        ensures
            w.well_formed(),
            w.slots.len() == count,
            forall|i: int| 0 <= i < count ==> #[trigger] w.slots@[i] == (RuneSlot { rune_index: None, foreground_set: set }),
            w.active == (if count > 0 { Some(0usize) } else { None }),
    {
        let mut slots: Vec<RuneSlot> = Vec::new();
        let mut i: usize = 0;
        while i < count
            invariant
                i <= count,
                slots.len() == i,
                forall|j: int| 0 <= j < i ==> #[trigger] slots@[j] == (RuneSlot { rune_index: None, foreground_set: set }),
            decreases count - i,
        {
            slots.push(RuneSlot { rune_index: None, foreground_set: set });
            i = i + 1;
        }
        RuneWord { slots, active: if count > 0 { Some(0) } else { None } }
    }

    /// Types `letter` into the active slot and moves on to the next slot of
    /// the word, if there is one. Returns whether a rune was typed: nothing is
    /// typed without an active slot or for a letter that is not a rune.
    pub fn type_into_active_slot(&mut self, letter: char) -> (typed: bool)
        requires
            old(self).well_formed(),
        ensures
            final(self).well_formed(),
            typed <==> old(self).active is Some && index_of_letter(letter) is Some,
            typed ==> {
                let a = old(self).active->0;
                &&& final(self).slots@ == old(self).slots@.update(
                    a as int,
                    RuneSlot { rune_index: Some(index_of_letter(letter)->0 as usize), ..old(self).slots@[a as int] },
                )
                &&& final(self).active == (if a + 1 < old(self).slots.len() { Some((a + 1) as usize) } else { Some(a) })
            },
            !typed ==> *final(self) == *old(self),
    {
        let a = match self.active {
            Some(a) => a,
            None => {
                return false;
            },
        };
        let index = match letter_to_index(letter) {
            Some(index) => index,
            None => {
                return false;
            },
        };
        let slot = RuneSlot { rune_index: Some(index), foreground_set: self.slots[a].foreground_set };
        self.slots.set(a, slot);
        if a + 1 < self.slots.len() {
            self.active = Some(a + 1);
        }
        true
    }

    /// Backspace: clears the active slot when it holds a rune; otherwise
    /// clears the slot before it and makes that one active.
    pub fn backspace(&mut self)
        requires
            old(self).well_formed(),
        ensures
            final(self).well_formed(),
            match old(self).active {
                None => *final(self) == *old(self),
                Some(a) => if old(self).slots@[a as int].rune_index is Some {
                    final(self).slots@ == old(self).slots@.update(
                        a as int,
                        RuneSlot { rune_index: None, ..old(self).slots@[a as int] },
                    ) && final(self).active == Some(a)
                } else if a > 0 {
                    final(self).slots@ == old(self).slots@.update(
                        a - 1,
                        RuneSlot { rune_index: None, ..old(self).slots@[a - 1] },
                    ) && final(self).active == Some((a - 1) as usize)
                } else {
                    *final(self) == *old(self)
                },
            },
    {
        let a = match self.active {
            Some(a) => a,
            None => {
                return;
            },
        };
        if self.slots[a].rune_index.is_some() {
            let slot = RuneSlot { rune_index: None, foreground_set: self.slots[a].foreground_set };
            self.slots.set(a, slot);
        } else if a > 0 {
            let slot = RuneSlot { rune_index: None, foreground_set: self.slots[a - 1].foreground_set };
            self.slots.set(a - 1, slot);
            self.active = Some(a - 1);
        }
    }

    /// The rune indices the word holds, left to right, skipping empty slots.
    pub fn collect_word_rune_indices(&self) -> (r: Vec<usize>)
        ensures
            r@ == filled_runes(self.slots@),
    {
        let mut out: Vec<usize> = Vec::new();
        let mut i: usize = 0;
        while i < self.slots.len()
            invariant
                i <= self.slots.len(),
                out@ == filled_runes(self.slots@.take(i as int)),
            decreases self.slots.len() - i,
        {
            assert(self.slots@.take(i + 1).drop_last() =~= self.slots@.take(i as int));
            if let Some(r) = self.slots[i].rune_index {
                out.push(r);
            }
            i = i + 1;
        }
        assert(self.slots@.take(i as int) =~= self.slots@);
        out
    }
}

/// The runes held by `slots`, in order, skipping empty slots.
pub open spec fn filled_runes(slots: Seq<RuneSlot>) -> Seq<usize>
    decreases slots.len(),
{
    if slots.len() == 0 {
        Seq::empty()
    } else {
        let rest = filled_runes(slots.drop_last());
        match slots.last().rune_index {
            Some(r) => rest.push(r),
            None => rest,
        }
    }
}

/// Typing one letter into a word's slots with `active` as the active slot:
/// the slots and active slot after it, and whether a rune was typed (see
/// `RuneWord::type_into_active_slot`).
pub open spec fn typed_step(slots: Seq<RuneSlot>, active: Option<usize>, letter: char) -> (Seq<RuneSlot>, Option<usize>, bool) {
    match active {
        None => (slots, active, false),
        Some(a) => match index_of_letter(letter) {
            None => (slots, active, false),
            Some(r) => (
                slots.update(a as int, RuneSlot { rune_index: Some(r as usize), ..slots[a as int] }),
                if a + 1 < slots.len() { Some((a + 1) as usize) } else { Some(a) },
                true,
            ),
        },
    }
}

/// Typing `letters` one after another: the slots and active slot after them,
/// and the letters that were typed as runes, in order.
pub open spec fn typed_all(slots: Seq<RuneSlot>, active: Option<usize>, letters: Seq<char>) -> (Seq<RuneSlot>, Option<usize>, Seq<char>)
    decreases letters.len(),
{
    if letters.len() == 0 {
        (slots, active, Seq::empty())
    } else {
        let before = typed_all(slots, active, letters.drop_last());
        let step = typed_step(before.0, before.1, letters.last());
        (step.0, step.1, if step.2 { before.2.push(letters.last()) } else { before.2 })
    }
}

impl RuneWord {
    /// Types `letters` one after another; returns those typed as runes.
    pub fn type_letters(&mut self, letters: &[char]) -> (typed: Vec<char>)
        requires
            old(self).well_formed(),
        ensures
            final(self).well_formed(),
            (final(self).slots@, final(self).active, typed@) == typed_all(
                old(self).slots@,
                old(self).active,
                letters@,
            ),
    {
        let mut typed: Vec<char> = Vec::new();
        let mut i: usize = 0;
        while i < letters.len()
            invariant
                i <= letters.len(),
                self.well_formed(),
                (self.slots@, self.active, typed@) == typed_all(old(self).slots@, old(self).active, letters@.take(i as int)),
            decreases letters.len() - i,
        {
            assert(letters@.take(i + 1).drop_last() =~= letters@.take(i as int));
            assert(letters@.take(i + 1).last() == letters@[i as int]);
            if self.type_into_active_slot(letters[i]) {
                typed.push(letters[i]);
            }
            i = i + 1;
        }
        assert(letters@.take(i as int) =~= letters@);
        typed
    }
}

/// Runes typed in a frame, under the policy for typing while a row is
/// graded: dropped, kept in `queued` for the next word, or typed into the
/// word after whatever was kept. Returns the runes typed into the word.
pub fn update_active_rune_slot_from_typed_input(
    word: &mut RuneWord,
    queued: &mut Vec<char>,
    typed_letters: &[char],
    policy: TypedInputPolicy,
) -> (typed: Vec<char>)
    requires
        old(word).well_formed(),
    ensures
        final(word).well_formed(),
        match policy {
            TypedInputPolicy::Ignore => {
                &&& final(word).slots@ == old(word).slots@
                &&& final(word).active == old(word).active
                &&& final(queued)@ == old(queued)@
                &&& typed@.len() == 0
            },
            TypedInputPolicy::QueueForNextWord => {
                &&& final(word).slots@ == old(word).slots@
                &&& final(word).active == old(word).active
                &&& final(queued)@ == old(queued)@ + typed_letters@
                &&& typed@.len() == 0
            },
            TypedInputPolicy::AcceptNormally => {
                &&& final(queued)@.len() == 0
                &&& (final(word).slots@, final(word).active, typed@) == typed_all(
                    old(word).slots@,
                    old(word).active,
                    old(queued)@ + typed_letters@,
                )
            },
        },
{
    match policy {
        TypedInputPolicy::Ignore => Vec::new(),
        TypedInputPolicy::QueueForNextWord => {
            let mut i: usize = 0;
            while i < typed_letters.len()
                invariant
                    i <= typed_letters.len(),
                    queued@ == old(queued)@ + typed_letters@.take(i as int),
                decreases typed_letters.len() - i,
            {
                queued.push(typed_letters[i]);
                assert(typed_letters@.take(i + 1) =~= typed_letters@.take(i as int).push(typed_letters@[i as int]));
                i = i + 1;
            }
            assert(typed_letters@.take(i as int) =~= typed_letters@);
            Vec::new()
        },
        TypedInputPolicy::AcceptNormally => {
            let mut letters: Vec<char> = Vec::new();
            letters.append(queued);
            let mut i: usize = 0;
            while i < typed_letters.len()
                invariant
                    i <= typed_letters.len(),
                    letters@ == old(queued)@ + typed_letters@.take(i as int),
                decreases typed_letters.len() - i,
            {
                letters.push(typed_letters[i]);
                assert(typed_letters@.take(i + 1) =~= typed_letters@.take(i as int).push(typed_letters@[i as int]));
                i = i + 1;
            }
            assert(typed_letters@.take(i as int) =~= typed_letters@);
            word.type_letters(letters.as_slice())
        },
    }
}

/// The sounds of a rune word waiting to be played one after another. (Each
/// clip's length is timed by the game.)
#[derive(Debug)]
pub struct WordAudioQueue<C> {
    pub pending: Vec<C>,
}

impl<C> WordAudioQueue<C> {
    /// Nothing to play.
    pub fn default() -> (r: Self)
        ensures
            r.pending@.len() == 0,
    {
        WordAudioQueue { pending: Vec::new() }
    }

    /// Starts playing `clips` in order: the first one plays at once (it is
    /// returned), the rest wait, replacing whatever waited before.
    pub fn start_audio_sequence(&mut self, clips: Vec<C>) -> (first: Option<C>)
        ensures
            clips@.len() == 0 ==> first is None && final(self).pending@.len() == 0,
            clips@.len() > 0 ==> first == Some(clips@[0]) && final(self).pending@ == clips@.subrange(
                1,
                clips@.len() as int,
            ),
    {
        let mut clips = clips;
        if clips.len() == 0 {
            self.pending = clips;
            return None;
        }
        let first = clips.remove(0);
        self.pending = clips;
        Some(first)
    }

    /// One frame of the sequence: once the clip playing is over
    /// (`clip_over`), the next waiting clip starts (it is returned).
    pub fn tick_word_audio_queue(&mut self, clip_over: bool) -> (next: Option<C>)
        ensures
            clip_over && old(self).pending@.len() > 0 ==> next == Some(old(self).pending@[0])
                && final(self).pending@ == old(self).pending@.subrange(1, old(self).pending@.len() as int),
            !(clip_over && old(self).pending@.len() > 0) ==> next is None && final(self).pending@ == old(
                self,
            ).pending@,
    {
        if clip_over && self.pending.len() > 0 {
            Some(self.pending.remove(0))
        } else {
            None
        }
    }
}

} // verus!
