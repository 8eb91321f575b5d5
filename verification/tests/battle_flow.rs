use rand::SeedableRng;
use ludumdare59::battle::{check_row_animation_done, BattlePhase, BattleState, RuneMatchState};
use ludumdare59::battle_flow::{
    on_acting_row_resolved, on_binding_row_resolved, score_acting_row_on_enter,
    score_binding_row_on_enter, setup_binding_target_on_battle_start, start_acting, start_binding,
};
use ludumdare59::battle_states::{targets_from_hand, ActingData, ActingOutcome, BindingData, BindingOutcome};
use ludumdare59::spellbook::SpellDef;
use ludumdare59::dictionary::Futharkation;
use ludumdare59::keyboard::EliminatedFutharkKeys;
use ludumdare59::reacting::{
    on_reacting_row_resolved, score_reacting_row_on_enter, start_reacting, tick_reacting_timer,
    ReactingData, ReactingOutcome,
};
use ludumdare59::row_grading::{GradingAction, PendingRowGrading};
use ludumdare59::rune_slots::{
    typed_input_during_grading_behavior, update_active_rune_slot_from_typed_input, RuneSlot,
    RuneSlotForegroundSet, RuneWord,
};

fn futha(word: &str, letters: &str) -> Futharkation {
    Futharkation {
        word: word.to_string(),
        letters: letters.to_string(),
    }
}

fn typed_row(letters: &[char], len: usize) -> Vec<RuneSlot> {
    let mut word = RuneWord::new(len, RuneSlotForegroundSet::default());
    word.type_letters(letters);
    word.slots
}

fn play_to_the_end(pending: &mut PendingRowGrading, battle: &mut BattleState) -> Vec<(char, RuneMatchState)> {
    let mut revealed = Vec::new();
    loop {
        match pending.tick(battle, true) {
            GradingAction::Reveal { step, .. } => revealed.push((step.letter, step.match_state)),
            GradingAction::Finalize { .. } => return revealed,
            GradingAction::Wait => panic!("a playback with time up never waits"),
        }
    }
}

#[test]
fn acting_round_casts_an_exactly_spelled_spell() {
    let mut battle = BattleState::default();
    let mut acting = ActingData::default();
    let mut pending = PendingRowGrading::default();
    let targets = vec![futha("fable", "futar"), futha("dune", "dun")];
    assert_eq!(start_acting(&mut battle, &mut acting, &targets), Some(5));
    assert_eq!(battle.phase, BattlePhase::Acting);
    let row_id = battle.open_row(vec![1, 2, 3, 4, 5]);
    assert_eq!(row_id, 0);

    let row = typed_row(&['f', 'u', 't', 'a', 'r'], 5);
    assert!(score_acting_row_on_enter(&mut battle, &mut acting, &mut pending, row_id, &row, &targets));
    assert!(battle.active_row_slots.is_empty());
    assert!(acting.pending_success);
    assert!(pending.is_active());

    // a second submission while grading plays back is ignored
    assert!(!score_acting_row_on_enter(&mut battle, &mut acting, &mut pending, row_id, &row, &targets));

    let revealed = play_to_the_end(&mut pending, &mut battle);
    assert_eq!(revealed.len(), 5);
    assert!(revealed.iter().all(|(_, s)| *s == RuneMatchState::Correct));
    assert_eq!(check_row_animation_done(&mut battle, false), None);
    assert_eq!(check_row_animation_done(&mut battle, false), Some(0));

    let mut last_word = None;
    match on_acting_row_resolved(&mut battle, &mut acting, &mut last_word) {
        ActingOutcome::Succeeded { matched } => assert_eq!(matched.word, "fable"),
        other => panic!("expected success, got {other:?}"),
    }
    assert_eq!(last_word.as_deref(), Some("fable"));
    assert_eq!(battle.phase, BattlePhase::Idle);
}

#[test]
fn acting_miss_asks_for_a_fresh_row() {
    let mut battle = BattleState::default();
    let mut acting = ActingData::default();
    let mut pending = PendingRowGrading::default();
    let targets = vec![futha("dune", "dun")];
    assert_eq!(start_acting(&mut battle, &mut acting, &targets), Some(3));
    let row_id = battle.open_row(vec![7, 8, 9]);
    let row = typed_row(&['d', 'a'], 3);
    assert!(score_acting_row_on_enter(&mut battle, &mut acting, &mut pending, row_id, &row, &targets));
    assert!(!acting.pending_success);
    let mut last_word = None;
    let outcome = on_acting_row_resolved(&mut battle, &mut acting, &mut last_word);
    assert!(matches!(outcome, ActingOutcome::Retry { rune_count: 3 }));
    assert_eq!(battle.phase, BattlePhase::Acting);
    assert_eq!(last_word.as_deref(), Some("dune"));
}

#[test]
fn acting_ignores_empty_rows_and_missing_spells() {
    let mut battle = BattleState::default();
    let mut acting = ActingData::default();
    let mut pending = PendingRowGrading::default();
    assert_eq!(start_acting(&mut battle, &mut acting, &[]), None);
    assert_eq!(battle.phase, BattlePhase::Idle);
    let empty = typed_row(&[], 3);
    assert!(!score_acting_row_on_enter(
        &mut battle,
        &mut acting,
        &mut pending,
        0,
        &empty,
        &[futha("dune", "dun")]
    ));
    let row = typed_row(&['d'], 3);
    assert!(!score_acting_row_on_enter(&mut battle, &mut acting, &mut pending, 0, &row, &[]));
    assert!(!pending.is_active());
}

#[test]
fn binding_round_rules_out_missing_keys_and_succeeds() {
    let mut battle = BattleState::default();
    let mut binding = BindingData::default();
    let mut keys = EliminatedFutharkKeys::default();
    keys.insert('z');
    let mut pending = PendingRowGrading::default();
    assert_eq!(start_binding(&mut battle, &mut binding, futha("ash", "aS"), &mut keys), 2);
    assert_eq!(battle.phase, BattlePhase::Binding);
    assert_eq!(keys.len(), 0);

    let row_id = battle.open_row(vec![1, 2]);
    let row = typed_row(&['k', 'S'], 2);
    assert!(score_binding_row_on_enter(&mut battle, &mut binding, &mut pending, row_id, &row));
    assert!(!binding.pending_success);
    loop {
        match pending.tick(&mut battle, true) {
            GradingAction::Reveal { row_id, step } => {
                binding.apply_graded_letter(row_id, step.letter, step.match_state, &mut keys)
            }
            GradingAction::Finalize { .. } => break,
            GradingAction::Wait => panic!("a playback with time up never waits"),
        }
    }
    assert!(keys.contains('k'));
    assert!(!keys.contains('S'));
    assert_eq!(check_row_animation_done(&mut battle, false), None);
    assert_eq!(check_row_animation_done(&mut battle, false), Some(row_id));

    let mut last_word = None;
    let outcome = on_binding_row_resolved(&mut battle, &mut binding, &mut last_word);
    assert_eq!(outcome, BindingOutcome::Retry { rune_count: 2 });
    assert_eq!(battle.phase, BattlePhase::Binding);
    assert_eq!(last_word.as_deref(), Some("ash"));

    let row_id = battle.open_row(vec![3, 4]);
    let row = typed_row(&['a', 'S'], 2);
    assert!(score_binding_row_on_enter(&mut battle, &mut binding, &mut pending, row_id, &row));
    assert!(binding.pending_success);
    let outcome = on_binding_row_resolved(&mut battle, &mut binding, &mut last_word);
    assert_eq!(outcome, BindingOutcome::Succeeded);
    assert_eq!(battle.phase, BattlePhase::Idle);
}

#[test]
fn binding_without_a_word_does_nothing() {
    let mut battle = BattleState::default();
    let mut binding = BindingData::default();
    let mut pending = PendingRowGrading::default();
    let row = typed_row(&['a'], 2);
    assert!(!score_binding_row_on_enter(&mut battle, &mut binding, &mut pending, 0, &row));
    let mut last_word = Some("earlier".to_string());
    assert_eq!(
        on_binding_row_resolved(&mut battle, &mut binding, &mut last_word),
        BindingOutcome::NoTarget
    );
    assert_eq!(last_word.as_deref(), Some("earlier"));
}

/// The game loop around the library, as the game runs it each frame: typed
/// runes, the grading playback (clips have no length here, so each step's
/// time is up at once), row resolution and the phase's reaction to it.
struct Game {
    battle: BattleState,
    acting: ActingData,
    binding: BindingData,
    reacting: ReactingData,
    time_limit: f32,
    elapsed: f32,
    keys: EliminatedFutharkKeys,
    pending: PendingRowGrading,
    word: RuneWord,
    row_id: u32,
    next_slot: u64,
    queued: Vec<char>,
    typed: Vec<char>,
    targets: Vec<Futharkation>,
    last_word: Option<String>,
    finalized: Vec<Vec<(u64, RuneMatchState)>>,
}

impl Game {
    fn new() -> Self {
        Game {
            battle: BattleState::default(),
            acting: ActingData::default(),
            binding: BindingData::default(),
            reacting: ReactingData::default(),
            time_limit: 0.0,
            elapsed: 0.0,
            keys: EliminatedFutharkKeys::default(),
            pending: PendingRowGrading::default(),
            word: RuneWord::new(0, RuneSlotForegroundSet::default()),
            row_id: 0,
            next_slot: 0,
            queued: Vec::new(),
            typed: Vec::new(),
            targets: Vec::new(),
            last_word: None,
            finalized: Vec::new(),
        }
    }

    fn open_row(&mut self, count: usize) {
        let slots: Vec<u64> = (self.next_slot..self.next_slot + count as u64).collect();
        self.next_slot += count as u64;
        self.row_id = self.battle.open_row(slots);
        self.word = RuneWord::new(count, RuneSlotForegroundSet::default());
    }

    fn start_acting(&mut self, targets: Vec<Futharkation>) {
        self.targets = targets;
        if let Some(count) = start_acting(&mut self.battle, &mut self.acting, &self.targets) {
            self.open_row(count);
        }
    }

    fn start_binding(&mut self, target: Futharkation) {
        let count = start_binding(&mut self.battle, &mut self.binding, target, &mut self.keys);
        self.open_row(count);
    }

    fn start_reacting(&mut self, target: Futharkation, time_limit: f32) {
        let count = start_reacting(&mut self.battle, &mut self.reacting, target);
        self.time_limit = time_limit;
        self.elapsed = 0.0;
        self.open_row(count);
    }

    fn fill_active_row(&mut self, guess: &str) {
        let letters: Vec<char> = guess.chars().collect();
        self.word.type_letters(&letters);
    }

    fn enter(&mut self) {
        match self.battle.phase {
            BattlePhase::Acting => {
                score_acting_row_on_enter(
                    &mut self.battle,
                    &mut self.acting,
                    &mut self.pending,
                    self.row_id,
                    &self.word.slots,
                    &self.targets,
                );
            }
            BattlePhase::Binding => {
                score_binding_row_on_enter(
                    &mut self.battle,
                    &mut self.binding,
                    &mut self.pending,
                    self.row_id,
                    &self.word.slots,
                );
            }
            BattlePhase::Reacting => {
                score_reacting_row_on_enter(
                    &mut self.battle,
                    &mut self.reacting,
                    &mut self.pending,
                    self.row_id,
                    &self.word.slots,
                );
            }
            _ => {}
        }
    }

    fn update(&mut self) {
        if self.reacting.active {
            // Each frame lasts a tenth of a second.
            self.elapsed += 0.1;
            let time_up = self.elapsed >= self.time_limit;
            tick_reacting_timer(&mut self.battle, &mut self.reacting, time_up);
        }

        let policy = typed_input_during_grading_behavior(
            Some((self.battle.phase, self.battle.active_row_slots.is_empty())),
            Some(self.pending.is_active()),
            Some(self.acting.pending_success),
        );
        let typed = std::mem::take(&mut self.typed);
        update_active_rune_slot_from_typed_input(&mut self.word, &mut self.queued, &typed, policy);

        match self.pending.tick(&mut self.battle, true) {
            GradingAction::Reveal { row_id, step } => {
                if self.battle.phase == BattlePhase::Binding {
                    self.binding
                        .apply_graded_letter(row_id, step.letter, step.match_state, &mut self.keys);
                }
            }
            GradingAction::Finalize { slot_results, .. } => self.finalized.push(slot_results),
            GradingAction::Wait => {}
        }

        if check_row_animation_done(&mut self.battle, false).is_some() {
            match self.battle.phase {
                BattlePhase::Acting => {
                    if let ActingOutcome::Retry { rune_count } =
                        on_acting_row_resolved(&mut self.battle, &mut self.acting, &mut self.last_word)
                    {
                        self.open_row(rune_count);
                    }
                }
                BattlePhase::Reacting => {
                    if let ReactingOutcome::Retry { rune_count } =
                        on_reacting_row_resolved(&mut self.battle, &mut self.reacting, &mut self.last_word)
                    {
                        self.open_row(rune_count);
                    }
                }
                BattlePhase::Binding => {
                    if let BindingOutcome::Retry { rune_count } =
                        on_binding_row_resolved(&mut self.battle, &mut self.binding, &mut self.last_word)
                    {
                        self.open_row(rune_count);
                    }
                }
                _ => {}
            }
        }
    }

    fn active_row_letters(&self) -> Vec<Option<char>> {
        ludumdare59::rune_slots::collect_guess_submission(&self.word.slots)
            .unwrap_or_else(|| vec![None; self.word.slots.len()])
    }
}

#[test]
fn acting_failure_increments_resolved_count() {
    let mut app = Game::new();
    app.start_acting(vec![futha("fable", "futar")]);
    app.fill_active_row("fxxxx");
    app.enter();
    app.update();
    for _ in 0..10 {
        app.update();
    }
    assert_eq!(app.battle.resolved_rows, 1, "one row should have been resolved");
    assert_eq!(app.battle.active_row_slots.len(), 5, "new row should be spawned");
}

#[test]
fn acting_failure_queues_typed_input_for_next_row_in_order() {
    let mut app = Game::new();
    app.start_acting(vec![futha("fable", "futar")]);
    // Force failure (partial match).
    app.fill_active_row("fxxxx");
    app.enter();
    app.update();

    app.typed.extend(['u', 't', 'a']);
    for _ in 0..16 {
        app.update();
    }

    let row = app.active_row_letters();
    assert_eq!(row[0], Some('u'));
    assert_eq!(row[1], Some('t'));
    assert_eq!(row[2], Some('a'));
}

#[test]
fn acting_success_ignores_typed_input_during_grading_animation() {
    let mut app = Game::new();
    app.start_acting(vec![futha("fable", "futar")]);
    app.fill_active_row("futar");
    app.enter();
    app.update();

    app.typed.extend(['u', 't']);
    for _ in 0..12 {
        app.update();
    }
    assert_eq!(app.battle.phase, BattlePhase::Idle);

    // Start a fresh acting round and verify no buffered input leaked through.
    app.start_acting(vec![futha("again", "futar")]);
    app.update();
    let row = app.active_row_letters();
    assert!(row.into_iter().all(|letter| letter.is_none()));
}

#[test]
fn submit_guess_colors_row_and_spawns_fresh_row_after_animation() {
    let mut app = Game::new();
    app.start_binding(futha("fable", "futar"));
    let submitted_row_slots = app.battle.active_row_slots.clone();
    app.fill_active_row("fukkk");
    app.enter();
    app.update();

    let mut saw_animation = false;
    for _ in 0..24 {
        if app.battle.pending_resolved_row.is_some() {
            saw_animation = true;
            break;
        }
        app.update();
    }
    assert!(saw_animation, "row should begin animating after typed letters are graded");

    let tints = app.finalized.last().expect("the row was tinted");
    assert_eq!(tints[0].0, submitted_row_slots[0]);
    assert_eq!(tints[0].1, RuneMatchState::Correct);

    for _ in 0..24 {
        if app.battle.pending_resolved_row.is_none()
            && !app.pending.is_active()
            && !app.battle.active_row_slots.is_empty()
        {
            break;
        }
        app.update();
    }
    assert!(app.battle.pending_resolved_row.is_none());
    assert_eq!(app.battle.active_row_slots.len(), 5);
}

#[test]
fn start_reacting_sets_phase_and_spawns_slots() {
    let mut app = Game::new();
    app.start_reacting(futha("fable", "fut"), 10.0);
    assert_eq!(app.battle.phase, BattlePhase::Reacting);
    assert_eq!(app.battle.active_row_slots.len(), 3, "one slot per rune in target");
    assert!(app.reacting.active);
    assert!(!app.reacting.pending_success);
}

#[test]
fn reacting_timeout_sends_failed_and_transitions_to_idle() {
    let mut app = Game::new();
    app.start_reacting(futha("fa", "fu"), 0.3);
    for _ in 0..5 {
        app.update();
    }
    assert_eq!(app.battle.phase, BattlePhase::Idle, "phase should be Idle after timeout");
    assert!(!app.reacting.active, "timer should be inactive after timeout");
}

#[test]
fn reacting_correct_guess_sends_succeeded_and_transitions_to_idle() {
    let mut app = Game::new();
    app.start_reacting(futha("fable", "fut"), 10.0);
    app.fill_active_row("fut");
    app.enter();
    app.update();
    for _ in 0..10 {
        app.update();
    }
    assert_eq!(app.battle.phase, BattlePhase::Idle, "phase should be Idle after correct guess");
    assert!(!app.reacting.active, "should be inactive after success");
    assert_eq!(app.last_word.as_deref(), Some("fable"));
}

#[test]
fn reacting_wrong_guess_stays_active_and_spawns_new_row() {
    let mut app = Game::new();
    app.start_reacting(futha("fable", "fut"), 10.0);
    let first_row = app.battle.active_row_slots.clone();
    app.fill_active_row("fxx");
    app.enter();
    app.update();
    for _ in 0..10 {
        app.update();
    }
    assert_eq!(app.battle.phase, BattlePhase::Reacting, "should remain Reacting after wrong guess");
    assert_eq!(app.battle.active_row_slots.len(), 3, "new row should be spawned");
    assert_ne!(app.battle.active_row_slots, first_row, "new row entities should differ from first row");
}

#[test]
fn reacting_wrong_guess_increments_resolved_count() {
    let mut app = Game::new();
    app.start_reacting(futha("fable", "fut"), 10.0);
    let first_row = app.battle.active_row_slots.clone();
    app.fill_active_row("fxx");
    app.enter();
    app.update();
    for _ in 0..10 {
        app.update();
    }
    assert_eq!(app.battle.resolved_rows, 1, "resolved row count should be 1");
    assert_ne!(app.battle.active_row_slots, first_row, "new row entities should differ from first row");
}

#[test]
fn reacting_clock_stopped_opens_no_new_row() {
    let mut battle = BattleState::default();
    let mut reacting = ReactingData::default();
    start_reacting(&mut battle, &mut reacting, futha("fable", "fut"));
    assert!(tick_reacting_timer(&mut battle, &mut reacting, true));
    assert!(!tick_reacting_timer(&mut battle, &mut reacting, true));
    let mut last = None;
    assert_eq!(on_reacting_row_resolved(&mut battle, &mut reacting, &mut last), ReactingOutcome::Stopped);
    assert_eq!(last.as_deref(), Some("fable"));
}

#[test]
fn acting_success_keeps_accepting_book_words() {
    let hand = vec![
        SpellDef { word: "fable".to_string(), futharkation: "futar".to_string(), starter: false },
        SpellDef { word: "dune".to_string(), futharkation: "dune".to_string(), starter: false },
    ];
    let mut app = Game::new();
    app.start_acting(targets_from_hand(&hand));
    app.fill_active_row("futar");
    app.enter();
    app.update();
    assert!(app.acting.pending_success);
    assert_eq!(hand.len(), app.targets.len(), "success should not change the hand before acting succeeds");
}

#[test]
fn battle_start_readies_a_binding_word() {
    let mut rng = rand::rngs::StdRng::seed_from_u64(4);
    let dictionary = "test /ˈtɛst/\n";
    let mut binding = BindingData::default();
    assert_eq!(setup_binding_target_on_battle_start(&mut binding, &[], dictionary, &mut rng), None);
    assert!(binding.target.is_none());
    let words = vec!["nowhere".to_string()];
    assert_eq!(setup_binding_target_on_battle_start(&mut binding, &words, dictionary, &mut rng), Some(0));
    assert!(binding.target.is_none(), "an unspellable word readies nothing");
    let words = vec!["test".to_string()];
    assert_eq!(setup_binding_target_on_battle_start(&mut binding, &words, dictionary, &mut rng), Some(0));
    assert_eq!(binding.target, Some(futha("test", "test")));
}
