use ludumdare59::effects::NpcVitals;
use ludumdare59::tutorial::{tutorial_npc_hold, TutorialAttackHold};
use ludumdare59::battle::BattlePhase;
use ludumdare59::loading::{
    processing_slot_for_letter, ProcessingQueue, FUTHARK_LETTER_COUNT, PROCESSING_RUNE_COUNT,
};
use ludumdare59::tutorial::{
    tutorial_step_config, HighlightTarget, TutorialAction, TutorialState, TutorialStep,
};

#[test]
fn tutorial_walks_through_its_steps() {
    let mut tutorial = TutorialState::start();
    assert!(tutorial.active);
    assert_eq!(tutorial.advance(true), TutorialAction::Nothing);

    tutorial.continue_input(true);
    assert_eq!(tutorial.advance(true), TutorialAction::Nothing);
    assert_eq!(tutorial.step, TutorialStep::ExplainSpellbook);
    tutorial.continue_input(true);
    tutorial.advance(true);
    assert_eq!(tutorial.step, TutorialStep::ExplainKeyboard);
    tutorial.continue_input(true);
    assert_eq!(tutorial.advance(false), TutorialAction::Nothing);
    assert_eq!(tutorial.step, TutorialStep::ExplainKeyboard);
    tutorial.continue_input(true);
    assert_eq!(tutorial.advance(true), TutorialAction::StartDefendBattle);
    assert_eq!(tutorial.step, TutorialStep::DefendPhase);

    tutorial.continue_input(true);
    assert!(!tutorial.advance_pending);
    assert_eq!(tutorial.on_acting_succeeded("bop"), TutorialAction::Nothing);
    assert_eq!(tutorial.on_acting_succeeded("Shield"), TutorialAction::StartAttack);
    assert_eq!(tutorial.on_acting_succeeded("BOP"), TutorialAction::StartBinding);
    assert_eq!(tutorial.step, TutorialStep::BindingPhase);
    assert_eq!(tutorial.on_binding_succeeded(), Some(BattlePhase::Idle));
    assert_eq!(tutorial.step, TutorialStep::Done);

    tutorial.continue_input(true);
    assert_eq!(tutorial.advance(true), TutorialAction::ExitToMainMenu);
    assert!(!tutorial.active);
}

#[test]
fn tutorial_starts_inactive_by_default() {
    let tutorial = TutorialState::default();
    assert!(!tutorial.active);
    assert_eq!(tutorial.step, TutorialStep::Welcome);
    let mut other = tutorial;
    assert_eq!(other.on_binding_succeeded(), None);
}

#[test]
fn tutorial_step_texts_and_highlights() {
    let (text, waits, highlight) = tutorial_step_config(TutorialStep::AttackPhase);
    assert_eq!(text, "Finish your foe!");
    assert!(!waits);
    assert_eq!(highlight, HighlightTarget::Nothing);
    let (_, waits, highlight) = tutorial_step_config(TutorialStep::ExplainSpellbook);
    assert!(waits);
    assert_eq!(highlight, HighlightTarget::Book);
}

#[test]
fn slot_cycles_after_five_letters() {
    let expected = [0usize, 1, 2, 3, 4, 0, 1, 2, 3, 4, 0, 1];
    for (letter, &expected_slot) in expected.iter().enumerate() {
        assert_eq!(processing_slot_for_letter(letter), expected_slot);
    }
}

#[test]
fn all_twenty_four_letters_fit_in_five_slots() {
    let mut max_slot = 0;
    for i in 0..FUTHARK_LETTER_COUNT {
        max_slot = max_slot.max(processing_slot_for_letter(i));
    }
    assert_eq!(max_slot, PROCESSING_RUNE_COUNT - 1);
}

#[test]
fn processing_bakes_each_letter_once() {
    let mut queue = ProcessingQueue::default();
    let mut steps = Vec::new();
    while let Some(step) = queue.process_next_letter() {
        steps.push(step);
    }
    assert_eq!(steps.len(), FUTHARK_LETTER_COUNT);
    assert!(steps[..FUTHARK_LETTER_COUNT - 1].iter().all(|s| !s.finished));
    assert!(steps[FUTHARK_LETTER_COUNT - 1].finished);
    assert_eq!(steps[7].slot_index, 2);
}

#[test]
fn tutorial_keeps_the_opponent_harmless() {

    let mut tutorial = TutorialState::start();
    tutorial.step = TutorialStep::DefendPhase;
    let mut npc = NpcVitals::default();
    assert_eq!(tutorial_npc_hold(&tutorial, &mut npc), TutorialAttackHold::HoldFirstAttack);
    assert_eq!((npc.hp, npc.max), (1, 1));

    tutorial.step = TutorialStep::AttackPhase;
    let mut npc = NpcVitals { hp: 40, max: 100, bindings: 0 };
    assert_eq!(tutorial_npc_hold(&tutorial, &mut npc), TutorialAttackHold::Stun);
    assert_eq!((npc.hp, npc.max), (1, 100));

    tutorial.step = TutorialStep::BindingPhase;
    let mut npc = NpcVitals { hp: 0, max: 1, bindings: 0 };
    assert_eq!(tutorial_npc_hold(&tutorial, &mut npc), TutorialAttackHold::Stun);
    assert_eq!(npc.hp, 0);

    tutorial.step = TutorialStep::Welcome;
    assert_eq!(tutorial_npc_hold(&tutorial, &mut npc), TutorialAttackHold::Leave);

    let idle = TutorialState::default();
    let mut npc = NpcVitals::default();
    assert_eq!(tutorial_npc_hold(&idle, &mut npc), TutorialAttackHold::Leave);
    assert_eq!(npc, NpcVitals::default());
}
