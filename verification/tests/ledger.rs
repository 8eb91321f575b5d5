use ludumdare59::battle::{BattleState, RuneMatchState};
use ludumdare59::ledger::{
    ledger_evicts_oldest, ledger_index_label, ledger_subtitle, PendingLedgerData, MAX_LEDGER_ROWS,
};
use ludumdare59::row_grading::{queue_row_grading_playback, GradingAction, PendingRowGrading};

#[test]
fn ledger_rows_get_roman_numerals() {
    assert_eq!(ledger_index_label(0), "I.");
    assert_eq!(ledger_index_label(3), "IV.");
    assert_eq!(ledger_index_label(4), "V.");
    assert_eq!(ledger_index_label(9), "·");
}

#[test]
fn ledger_subtitle_quotes_the_word() {
    assert_eq!(ledger_subtitle(Some("fable")), "\"fable\"");
    assert_eq!(ledger_subtitle(None), "— unknown —");
}

#[test]
fn full_ledger_drops_its_oldest_row() {
    assert_eq!(MAX_LEDGER_ROWS, 4);
    assert!(!ledger_evicts_oldest(3));
    assert!(ledger_evicts_oldest(4));
}

#[test]
fn resolved_row_hands_over_its_letters_in_order() {
    let mut pending = PendingLedgerData::default();
    pending.accumulate(0, 'f', RuneMatchState::Correct);
    pending.accumulate(1, 'a', RuneMatchState::Missing);
    pending.accumulate(0, 'u', RuneMatchState::Present);
    let tiles = pending.take_row(0);
    assert_eq!(tiles, vec![('f', RuneMatchState::Correct), ('u', RuneMatchState::Present)]);
    assert_eq!(pending.rows.len(), 1);
    assert!(pending.take_row(0).is_empty());
    assert_eq!(pending.take_row(1), vec![('a', RuneMatchState::Missing)]);
}

#[test]
fn grading_reveals_rune_letters_one_by_one_then_resolves() {
    let mut pending = PendingRowGrading::default();
    let mut battle = BattleState::default();
    let slots = [10u64, 11, 12, 13];
    let guess = [Some('f'), None, Some('!'), Some('u')];
    let results = [
        RuneMatchState::Correct,
        RuneMatchState::Missing,
        RuneMatchState::Missing,
        RuneMatchState::Present,
    ];
    queue_row_grading_playback(2, &slots, &guess, &results, &mut pending);
    assert!(pending.is_active());
    let queued = pending.current.as_ref().unwrap();
    assert_eq!(queued.steps.len(), 2, "only slots holding rune letters are revealed");
    assert_eq!(queued.slot_results.len(), 4);

    match pending.tick(&mut battle, false) {
        GradingAction::Reveal { row_id, step } => {
            assert_eq!(row_id, 2);
            assert_eq!((step.slot, step.letter, step.rune_index), (10, 'f', 0));
            assert_eq!(step.match_state, RuneMatchState::Correct);
        }
        other => panic!("expected a reveal, got {other:?}"),
    }
    assert!(matches!(pending.tick(&mut battle, false), GradingAction::Wait));
    match pending.tick(&mut battle, true) {
        GradingAction::Reveal { step, .. } => {
            assert_eq!((step.slot, step.letter, step.rune_index), (13, 'u', 1));
        }
        other => panic!("expected a reveal, got {other:?}"),
    }
    match pending.tick(&mut battle, true) {
        GradingAction::Finalize { row_id, slot_results } => {
            assert_eq!(row_id, 2);
            assert_eq!(slot_results.len(), 4);
            assert_eq!(slot_results[3], (13, RuneMatchState::Present));
        }
        other => panic!("expected the row to finalize, got {other:?}"),
    }
    assert!(!pending.is_active());
    assert_eq!(battle.pending_resolved_row, Some(2));
    assert_eq!(battle.pending_settle_frames, 1);
}

#[test]
fn grading_waits_while_a_row_is_resolving() {
    let mut pending = PendingRowGrading::default();
    let mut battle = BattleState::default();
    battle.pending_resolved_row = Some(0);
    queue_row_grading_playback(1, &[1], &[Some('a')], &[RuneMatchState::Correct], &mut pending);
    assert!(matches!(pending.tick(&mut battle, true), GradingAction::Wait));
    assert!(pending.is_active());
}

#[test]
fn grading_without_letters_resolves_at_once() {
    let mut pending = PendingRowGrading::default();
    let mut battle = BattleState::default();
    queue_row_grading_playback(5, &[1, 2], &[None, None], &[RuneMatchState::Missing; 2], &mut pending);
    assert!(matches!(pending.tick(&mut battle, false), GradingAction::Finalize { row_id: 5, .. }));
    assert_eq!(battle.pending_resolved_row, Some(5));
}

#[test]
fn grading_keeps_its_order_whatever_the_timing() {
    let mut pending = PendingRowGrading::default();
    let mut battle = BattleState::default();
    let guess = [Some('f'), Some('u'), Some('t')];
    let results = [RuneMatchState::Correct; 3];
    queue_row_grading_playback(0, &[1, 2, 3], &guess, &results, &mut pending);
    let mut revealed = Vec::new();
    for time_up in [false, false, true, false, true, false, true] {
        if let GradingAction::Reveal { step, .. } = pending.tick(&mut battle, time_up) {
            revealed.push(step.letter);
        }
    }
    assert_eq!(revealed, vec!['f', 'u', 't']);
    assert!(!pending.is_active());
}
