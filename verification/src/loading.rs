use vstd::prelude::*;

verus! {

/// Number of letters whose sounds are baked while loading.
pub const FUTHARK_LETTER_COUNT: usize = 24;

/// Number of rune slots the processing screen cycles through.
pub const PROCESSING_RUNE_COUNT: usize = 5;

/// The processing-screen slot that shows letter `letter_index`: slots are
/// reused in turn.
pub fn processing_slot_for_letter(letter_index: usize) -> (slot: usize)
    ensures
        slot == letter_index % 5,
        slot < PROCESSING_RUNE_COUNT,
{
    letter_index % PROCESSING_RUNE_COUNT
}

/// One step of the processing screen: which letter is baked, which slot shows
/// it, and whether it was the last letter.
#[derive(Debug, Clone, Copy, PartialEq, Eq, Structural)]
pub struct ProcessingStep {
    pub letter_index: usize,
    pub slot_index: usize,
    pub finished: bool,
}

/// How far the baking of letter sounds has come.
#[derive(Debug, Clone, Copy, PartialEq, Eq, Structural)]
pub struct ProcessingQueue {
    pub next_letter: usize,
}

impl ProcessingQueue {
    /// Nothing baked yet.
    pub fn default() -> (r: Self)
        ensures
            r.next_letter == 0,
    {
        ProcessingQueue { next_letter: 0 }
    }

    /// Takes the next letter to bake, one per frame, until all are baked.
    pub fn process_next_letter(&mut self) -> (step: Option<ProcessingStep>)
        ensures
            old(self).next_letter >= FUTHARK_LETTER_COUNT ==> step is None && *final(self) == *old(self),
            old(self).next_letter < FUTHARK_LETTER_COUNT ==> {
                &&& final(self).next_letter == old(self).next_letter + 1
                &&& step == Some(ProcessingStep {
                    letter_index: old(self).next_letter,
                    slot_index: old(self).next_letter % 5,
                    finished: final(self).next_letter == FUTHARK_LETTER_COUNT,
                })
            },
    {
        if self.next_letter >= FUTHARK_LETTER_COUNT {
            return None;
        }
        let letter_index = self.next_letter;
        let slot_index = processing_slot_for_letter(letter_index);
        self.next_letter = self.next_letter + 1;
        Some(ProcessingStep { letter_index, slot_index, finished: self.next_letter >= FUTHARK_LETTER_COUNT })
    }
}

} // verus!
