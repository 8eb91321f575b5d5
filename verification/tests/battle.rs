use std::collections::HashSet;

use ludumdare59::battle::{
    begin_row_resolution_animation, check_row_animation_done, find_best_match,
    letters_eliminated_in_row, reset_battle_state, score_guess, score_guess_submission,
    BattlePhase, BattleState, RuneMatchState,
};
use ludumdare59::dictionary::Futharkation;

fn futha(word: &str, letters: &str) -> Futharkation {
    Futharkation {
        word: word.to_string(),
        letters: letters.to_string(),
    }
}

#[test]
fn score_guess_handles_duplicate_letters() {
    assert_eq!(
        score_guess("aaccc", "abaca"),
        vec![
            RuneMatchState::Correct,
            RuneMatchState::Present,
            RuneMatchState::Missing,
            RuneMatchState::Correct,
            RuneMatchState::Missing,
        ]
    );
}

#[test]
fn score_guess_submission_skips_empty_slots_and_extra_runes() {
    assert_eq!(
        score_guess_submission(&[None, Some('f'), Some('u'), Some('x')], "fu"),
        vec![
            RuneMatchState::Missing,
            RuneMatchState::Present,
            RuneMatchState::Present,
            RuneMatchState::Missing,
        ]
    );
    assert_eq!(score_guess("", "futar"), Vec::<RuneMatchState>::new());
}

#[test]
fn find_best_match_returns_none_for_empty_targets() {
    let guess: Vec<Option<char>> = vec![Some('f'), Some('u')];
    assert!(find_best_match(&guess, &[]).is_none());
}

#[test]
fn find_best_match_picks_target_with_most_correct() {
    let guess: Vec<Option<char>> = vec![Some('f'), Some('u'), Some('t')];
    let targets = vec![futha("a", "fxx"), futha("b", "fut")];
    let (matched, results) = find_best_match(&guess, &targets).unwrap();
    assert_eq!(matched.word, "b");
    assert!(results.iter().all(|r| matches!(r, RuneMatchState::Correct)));
}

#[test]
fn find_best_match_breaks_ties_by_present_count() {
    let guess: Vec<Option<char>> = vec![Some('f'), Some('a'), Some('b')];
    let targets = vec![futha("fax", "fax"), futha("fbx", "fbx")];
    let (matched, _) = find_best_match(&guess, &targets).unwrap();
    assert_eq!(matched.word, "fax");
}

#[test]
fn find_best_match_prefers_correct_over_present() {
    let guess: Vec<Option<char>> = vec![Some('a'), Some('b'), Some('c')];
    let targets = vec![futha("bca", "bca"), futha("abc", "abc")];
    let (matched, _) = find_best_match(&guess, &targets).unwrap();
    assert_eq!(matched.word, "abc");
}

#[test]
fn find_best_match_takes_the_last_of_equal_fits() {
    let guess: Vec<Option<char>> = vec![Some('f'), Some('x')];
    let targets = vec![futha("first", "fa"), futha("second", "fb")];
    let (matched, _) = find_best_match(&guess, &targets).unwrap();
    assert_eq!(matched.word, "second");
}

#[test]
fn duplicate_letters_are_not_eliminated_if_any_copy_is_non_missing() {
    let guess = vec![Some('r'), Some('r')];
    let results = vec![RuneMatchState::Missing, RuneMatchState::Correct];

    let eliminated = letters_eliminated_in_row(&guess, &results);
    assert!(eliminated.is_empty());
}

#[test]
fn missing_letters_without_non_missing_copy_are_eliminated() {
    let guess = vec![Some('k'), Some('r'), Some('r')];
    let results = vec![
        RuneMatchState::Missing,
        RuneMatchState::Missing,
        RuneMatchState::Correct,
    ];

    let eliminated: HashSet<char> = letters_eliminated_in_row(&guess, &results)
        .into_iter()
        .collect();
    assert_eq!(eliminated, HashSet::from(['k']));
}

#[test]
fn phase_index_shares_first_slot_between_idle_and_binding() {
    assert_eq!(BattlePhase::Idle.phase_index(), 0);
    assert_eq!(BattlePhase::Binding.phase_index(), 0);
    assert_eq!(BattlePhase::Acting.phase_index(), 1);
    assert_eq!(BattlePhase::Reacting.phase_index(), 2);
}

#[test]
fn multiple_failed_submissions_increment_resolved_count() {
    let mut state = BattleState::default();
    state.phase = BattlePhase::Binding;
    for _ in 0..2 {
        let row = state.open_row(vec![1, 2, 3, 4, 5]);
        begin_row_resolution_animation(&mut state, row);
        assert_eq!(check_row_animation_done(&mut state, false), None);
        assert_eq!(check_row_animation_done(&mut state, true), None);
        assert_eq!(check_row_animation_done(&mut state, false), Some(row));
        assert_eq!(check_row_animation_done(&mut state, false), None);
    }
    assert_eq!(state.resolved_rows, 2, "two rows should have been resolved");
    assert_eq!(state.next_row_id, 2);
    reset_battle_state(&mut state);
    assert_eq!(state.resolved_rows, 0);
    assert_eq!(state.next_row_id, 0);
    assert!(state.active_row_slots.is_empty());
    assert_eq!(state.phase, BattlePhase::Binding);
}
