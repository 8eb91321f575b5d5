use vstd::prelude::*;

use crate::battle::BattlePhase;
use crate::effects::NpcVitals;
use crate::text::{chars_of, eq_ignore_ascii_case, spec_eq_ignore_ascii_case};

verus! {

/// The binding word used during the tutorial.
pub const TUTORIAL_BINDING_WORD: &'static str = "ash";

/// The steps of the tutorial, in order.
#[derive(Debug, Clone, Copy, PartialEq, Eq, Structural)]
pub enum TutorialStep {
    Welcome,
    ExplainSpellbook,
    ExplainKeyboard,
    DefendPhase,
    AttackPhase,
    BindingPhase,
    Done,
}

/// Where the tutorial stands.
#[derive(Debug, Clone, Copy, PartialEq, Eq, Structural)]
pub struct TutorialState {
    pub active: bool,
    pub step: TutorialStep,
    /// The current step's action is done; the tutorial moves on at the next
    /// frame.
    pub advance_pending: bool,
}

/// What the game has to do for the tutorial after a transition.
#[derive(Debug, Clone, Copy, PartialEq, Eq, Structural)]
pub enum TutorialAction {
    /// Nothing.
    Nothing,
    /// Bring in the tutorial goblin, start the battle, give the player the
    /// hand `shield` and start acting.
    StartDefendBattle,
    /// Give the player the hand `bop` and start acting again.
    StartAttack,
    /// Defeat the opponent and start binding.
    StartBinding,
    /// The tutorial is over: the battle goes idle and the main menu opens.
    ExitToMainMenu,
}

/// The steps that only show text and wait for the player to go on.
pub open spec fn is_text_step(step: TutorialStep) -> bool {
    step == TutorialStep::Welcome || step == TutorialStep::ExplainSpellbook || step
        == TutorialStep::ExplainKeyboard || step == TutorialStep::Done
}

/// What part of the screen a step points the player to.
#[derive(Debug, Clone, Copy, PartialEq, Eq, Structural)]
pub enum HighlightTarget {
    Nothing,
    Book,
    Keyboard,
    RuneWordAndBinding,
}

impl TutorialState {
    /// The tutorial, not running.
    pub fn default() -> (r: Self)
        ensures
            r == (TutorialState { active: false, step: TutorialStep::Welcome, advance_pending: false }),
    {
        TutorialState { active: false, step: TutorialStep::Welcome, advance_pending: false }
    }

    /// The tutorial, starting at its first step.
    pub fn start() -> (r: Self)
        ensures
            r == (TutorialState { active: true, step: TutorialStep::Welcome, advance_pending: false }),
    {
        TutorialState { active: true, step: TutorialStep::Welcome, advance_pending: false }
    }

    /// The player asked to go on (Enter or the continue button): text steps
    /// then move on at the next frame; the other steps ignore it.
    pub fn continue_input(&mut self, pressed: bool)
        ensures
            final(self).active == old(self).active,
            final(self).step == old(self).step,
            final(self).advance_pending == (old(self).advance_pending || (pressed && is_text_step(
                old(self).step,
            ))),
    {
        let text_step = match self.step {
            TutorialStep::Welcome | TutorialStep::ExplainSpellbook | TutorialStep::ExplainKeyboard
            | TutorialStep::Done => true,
            _ => false,
        };
        if text_step && pressed {
            self.advance_pending = true;
        }
    }

    /// Moves on from a text step whose action is done. The explanation of the
    /// keyboard is followed by the defence battle only when the tutorial
    /// opponent can be brought in (`opponent_ready`).
    pub fn advance(&mut self, opponent_ready: bool) -> (action: TutorialAction)
        ensures
            !old(self).advance_pending ==> *final(self) == *old(self) && action == TutorialAction::Nothing,
            old(self).advance_pending ==> !final(self).advance_pending && match old(self).step {
                TutorialStep::Welcome => final(self).step == TutorialStep::ExplainSpellbook && action
                    == TutorialAction::Nothing && final(self).active == old(self).active,
                TutorialStep::ExplainSpellbook => final(self).step == TutorialStep::ExplainKeyboard
                    && action == TutorialAction::Nothing && final(self).active == old(self).active,
                TutorialStep::ExplainKeyboard => final(self).active == old(self).active && if opponent_ready {
                    final(self).step == TutorialStep::DefendPhase && action
                        == TutorialAction::StartDefendBattle
                } else {
                    final(self).step == TutorialStep::ExplainKeyboard && action == TutorialAction::Nothing
                },
                TutorialStep::Done => !final(self).active && final(self).step == TutorialStep::Done
                    && action == TutorialAction::ExitToMainMenu,
                _ => final(self).step == old(self).step && final(self).active == old(self).active
                    && action == TutorialAction::Nothing,
            },
    {
        if !self.advance_pending {
            return TutorialAction::Nothing;
        }
        self.advance_pending = false;
        match self.step {
            TutorialStep::Welcome => {
                self.step = TutorialStep::ExplainSpellbook;
                TutorialAction::Nothing
            },
            TutorialStep::ExplainSpellbook => {
                self.step = TutorialStep::ExplainKeyboard;
                TutorialAction::Nothing
            },
            TutorialStep::ExplainKeyboard => {
                if !opponent_ready {
                    return TutorialAction::Nothing;
                }
                self.step = TutorialStep::DefendPhase;
                TutorialAction::StartDefendBattle
            },
            TutorialStep::Done => {
                self.active = false;
                TutorialAction::ExitToMainMenu
            },
            _ => TutorialAction::Nothing,
        }
    }

    /// A spell was cast in the tutorial. Casting `shield` while defending moves
    /// on to the attack; casting `bop` while attacking moves on to binding.
    /// Words compare without regard to case.
    pub fn on_acting_succeeded(&mut self, word: &str) -> (action: TutorialAction)
        ensures
            final(self).active == old(self).active,
            final(self).advance_pending == old(self).advance_pending,
            if old(self).step == TutorialStep::DefendPhase && spec_eq_ignore_ascii_case(word@, "shield"@) {
                final(self).step == TutorialStep::AttackPhase && action == TutorialAction::StartAttack
            } else if old(self).step == TutorialStep::AttackPhase && spec_eq_ignore_ascii_case(word@, "bop"@) {
                final(self).step == TutorialStep::BindingPhase && action == TutorialAction::StartBinding
            } else {
                final(self).step == old(self).step && action == TutorialAction::Nothing
            },
    {
        let spoken = chars_of(word);
        match self.step {
            TutorialStep::DefendPhase => {
                let shield = chars_of("shield");
                if eq_ignore_ascii_case(&spoken, &shield) {
                    self.step = TutorialStep::AttackPhase;
                    return TutorialAction::StartAttack;
                }
                TutorialAction::Nothing
            },
            TutorialStep::AttackPhase => {
                let bop = chars_of("bop");
                if eq_ignore_ascii_case(&spoken, &bop) {
                    self.step = TutorialStep::BindingPhase;
                    return TutorialAction::StartBinding;
                }
                TutorialAction::Nothing
            },
            _ => TutorialAction::Nothing,
        }
    }

    /// The binding succeeded: during the tutorial's binding step this leads to
    /// its final message, and the battle goes idle. Returns the phase the
    /// battle is to take, if it changes.
    pub fn on_binding_succeeded(&mut self) -> (phase: Option<BattlePhase>)
        ensures
            final(self).active == old(self).active,
            final(self).advance_pending == old(self).advance_pending,
            old(self).step == TutorialStep::BindingPhase ==> final(self).step == TutorialStep::Done
                && phase == Some(BattlePhase::Idle),
            old(self).step != TutorialStep::BindingPhase ==> final(self).step == old(self).step
                && phase is None,
    {
        if self.step != TutorialStep::BindingPhase {
            return None;
        }
        self.step = TutorialStep::Done;
        Some(BattlePhase::Idle)
    }
}

/// The text the tutorial shows at `step`.
pub open spec fn tutorial_step_text(step: TutorialStep) -> Seq<char> {
    match step {
        TutorialStep::Welcome => "Welcome, you are a wizard battling your way through a cursed forest."@,
        TutorialStep::ExplainSpellbook => "You have in your spellbook various spells which you must cast from runes."@,
        TutorialStep::ExplainKeyboard => "Click or type these runes to spell words."@,
        TutorialStep::DefendPhase => "The enemy prepares to strike! Type the runes you see here to cast a shield!"@,
        TutorialStep::AttackPhase => "Finish your foe!"@,
        TutorialStep::BindingPhase => "You must bind this spirit away by divining their binding word. Use your runes to sound it out. If you fail, the creature will receive a burst of energy and rise to fight again."@,
        TutorialStep::Done => "You have bound the spirit, but more lurk deeper. Are you ready?"@,
    }
}

/// The text of a step, whether it waits for the player to go on, and what it
/// points to.
pub fn tutorial_step_config(step: TutorialStep) -> (r: (&'static str, bool, HighlightTarget))
    ensures
        r.0@ == tutorial_step_text(step),
        r.1 == is_text_step(step),
        r.2 == match step {
            TutorialStep::ExplainSpellbook => HighlightTarget::Book,
            TutorialStep::ExplainKeyboard => HighlightTarget::Keyboard,
            TutorialStep::BindingPhase => HighlightTarget::RuneWordAndBinding,
            _ => HighlightTarget::Nothing,
        },
{
    match step {
        TutorialStep::Welcome => (
            "Welcome, you are a wizard battling your way through a cursed forest.",
            true,
            HighlightTarget::Nothing,
        ),
        TutorialStep::ExplainSpellbook => (
            "You have in your spellbook various spells which you must cast from runes.",
            true,
            HighlightTarget::Book,
        ),
        TutorialStep::ExplainKeyboard => (
            "Click or type these runes to spell words.",
            true,
            HighlightTarget::Keyboard,
        ),
        TutorialStep::DefendPhase => (
            "The enemy prepares to strike! Type the runes you see here to cast a shield!",
            false,
            HighlightTarget::Nothing,
        ),
        TutorialStep::AttackPhase => ("Finish your foe!", false, HighlightTarget::Nothing),
        TutorialStep::BindingPhase => (
            "You must bind this spirit away by divining their binding word. Use your runes to sound it out. If you fail, the creature will receive a burst of energy and rise to fight again.",
            false,
            HighlightTarget::RuneWordAndBinding,
        ),
        TutorialStep::Done => (
            "You have bound the spirit, but more lurk deeper. Are you ready?",
            true,
            HighlightTarget::Nothing,
        ),
    }
}

/// How the tutorial holds back the opponent's attacks (the game applies it to
/// the attack timers).
#[derive(Debug, Clone, Copy, PartialEq, Eq, Structural)]
pub enum TutorialAttackHold {
    /// The opponent attacks as usual.
    Leave,
    /// The opponent winds up its first attack but never strikes.
    HoldFirstAttack,
    /// The opponent stays stunned.
    Stun,
}

/// Keeps the tutorial opponent harmless: while defending it has a single hit
/// point (of one) and winds up without striking; while attacking it is
/// stunned at one hit point; while binding it stays stunned.
pub fn tutorial_npc_hold(tutorial: &TutorialState, npc: &mut NpcVitals) -> (hold: TutorialAttackHold)
    ensures
        final(npc).bindings == old(npc).bindings,
        !tutorial.active ==> hold == TutorialAttackHold::Leave && *final(npc) == *old(npc),
        tutorial.active ==> match tutorial.step {
            TutorialStep::DefendPhase => {
                &&& hold == TutorialAttackHold::HoldFirstAttack
                &&& final(npc).hp == 1
                &&& final(npc).max == (if old(npc).hp != 1 { 1 } else { old(npc).max })
            },
            TutorialStep::AttackPhase => {
                &&& hold == TutorialAttackHold::Stun
                &&& final(npc).hp == 1
                &&& final(npc).max == old(npc).max
            },
            TutorialStep::BindingPhase => hold == TutorialAttackHold::Stun && *final(npc) == *old(npc),
            _ => hold == TutorialAttackHold::Leave && *final(npc) == *old(npc),
        },
{
    if !tutorial.active {
        return TutorialAttackHold::Leave;
    }
    match tutorial.step {
        TutorialStep::DefendPhase => {
            if npc.hp != 1 {
                npc.hp = 1;
                npc.max = 1;
            }
            TutorialAttackHold::HoldFirstAttack
        },
        TutorialStep::AttackPhase => {
            if npc.hp != 1 {
                npc.hp = 1;
            }
            TutorialAttackHold::Stun
        },
        TutorialStep::BindingPhase => TutorialAttackHold::Stun,
        _ => TutorialAttackHold::Leave,
    }
}

} // verus!
