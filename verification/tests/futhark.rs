use ludumdare59::keyboard::{toggle_futhark_keyboard_legend_mode, FutharkKeyboardLegendMode};
use ludumdare59::keyboard::last_typed_futhark_character;
use ludumdare59::keyboard::{route_key_click, route_typed_text, KeyPress};
use ludumdare59::battle::{BattlePhase, BattleState};
use ludumdare59::futhark::{index_to_letter, letter_to_index};
use ludumdare59::keyboard::{
    is_eliminated_for_binding, key_background_color, keyboard_label_for_letter,
    keyboard_rows_by_index, map_typed_char_to_futhark, EliminatedFutharkKeys,
    FutharkKeyboardAliases, KeyColor, KEYBOARD_GAP,
};

const LETTERS: [char; 25] = [
    'f', 'u', 'T', 'a', 'r', 'k', 'g', 'w', 'h', 'n', 'i', 'j', 'A', 'p', 'z', 's', 't', 'b', 'e',
    'm', 'l', 'N', 'd', 'o', 'S',
];

fn all_keyboard_indices() -> Vec<usize> {
    let rows = keyboard_rows_by_index();
    let mut all_indices = rows
        .iter()
        .flat_map(|row| row.iter().copied())
        .filter(|&i| i != KEYBOARD_GAP)
        .collect::<Vec<_>>();
    all_indices.sort_unstable();
    all_indices
}

#[test]
fn index_to_letter_maps_all_futhark_entries() {
    for (index, letter) in LETTERS.iter().enumerate() {
        assert_eq!(index_to_letter(index), Some(*letter));
    }
}

#[test]
fn letter_to_index_maps_all_futhark_entries() {
    for (index, letter) in LETTERS.iter().enumerate() {
        assert_eq!(letter_to_index(*letter), Some(index));
    }
}

#[test]
fn unknown_values_are_rejected() {
    assert_eq!(index_to_letter(25), None);
    assert_eq!(letter_to_index('x'), None);
}

#[test]
fn futhark_keyboard_uses_all_futhark_entries_once() {
    let expected_indices = (0..25).collect::<Vec<_>>();
    assert_eq!(all_keyboard_indices(), expected_indices);
}

#[test]
fn keyboard_keyboard_uses_all_futhark_entries_once() {
    let expected_indices = (0..25).collect::<Vec<_>>();
    assert_eq!(all_keyboard_indices(), expected_indices);
}

#[test]
fn futhark_highlights_vowels_in_yellow() {
    assert_eq!(key_background_color('a'), KeyColor::Yellow);
    assert_eq!(key_background_color('u'), KeyColor::Yellow);
}

#[test]
fn keyboard_highlights_vowels_in_yellow() {
    assert_eq!(key_background_color('a'), KeyColor::Yellow);
    assert_eq!(key_background_color('u'), KeyColor::Yellow);
}

#[test]
fn futhark_highlights_uppercase_in_blue() {
    assert_eq!(key_background_color('T'), KeyColor::Blue);
    assert_eq!(key_background_color('S'), KeyColor::Blue);
}

#[test]
fn keyboard_highlights_uppercase_in_blue() {
    assert_eq!(key_background_color('T'), KeyColor::Blue);
    assert_eq!(key_background_color('S'), KeyColor::Blue);
}

#[test]
fn futhark_highlights_uppercase_vowels_in_green() {
    assert_eq!(key_background_color('A'), KeyColor::Green);
}

#[test]
fn keyboard_highlights_uppercase_vowels_in_green() {
    assert_eq!(key_background_color('A'), KeyColor::Green);
}

#[test]
fn consonants_keep_a_white_key() {
    assert_eq!(key_background_color('r'), KeyColor::White);
    assert_eq!(key_background_color('z'), KeyColor::White);
}

fn check_positional_aliases() {
    let aliases = FutharkKeyboardAliases::default();

    assert_eq!(map_typed_char_to_futhark('q', &aliases), Some('A'));
    assert_eq!(map_typed_char_to_futhark('Q', &aliases), Some('A'));
    assert_eq!(map_typed_char_to_futhark('y', &aliases), Some('T'));
    assert_eq!(map_typed_char_to_futhark('x', &aliases), Some('S'));
    assert_eq!(map_typed_char_to_futhark('c', &aliases), Some('N'));
}

#[test]
fn futhark_positional_aliases_map_to_uppercase_runes() {
    check_positional_aliases();
}

#[test]
fn keyboard_positional_aliases_map_to_uppercase_runes() {
    check_positional_aliases();
}

fn check_direct_input() {
    let aliases = FutharkKeyboardAliases::default();

    assert_eq!(map_typed_char_to_futhark('a', &aliases), Some('a'));
    assert_eq!(map_typed_char_to_futhark('A', &aliases), Some('A'));
    assert_eq!(map_typed_char_to_futhark('z', &aliases), Some('z'));
}

#[test]
fn futhark_direct_rune_letter_input_still_works() {
    check_direct_input();
}

#[test]
fn keyboard_direct_rune_letter_input_still_works() {
    check_direct_input();
}

#[test]
fn aliases_can_be_replaced_and_must_name_runes() {
    let mut aliases = FutharkKeyboardAliases::default();
    aliases.set_alias('q', 'S');
    assert_eq!(aliases.map_alias('q'), Some('S'));
    assert_eq!(aliases.map_alias('Q'), Some('A'));
    aliases.set_alias('v', '!');
    assert_eq!(aliases.map_alias('v'), Some('!'));
    assert_eq!(map_typed_char_to_futhark('v', &aliases), None);
    assert_eq!(map_typed_char_to_futhark('7', &aliases), None);
}

fn check_labels() {
    assert_eq!(keyboard_label_for_letter('A'), ("ah".to_owned(), 16));
    assert_eq!(keyboard_label_for_letter('S'), ("sh".to_owned(), 16));
    assert_eq!(keyboard_label_for_letter('T'), ("th".to_owned(), 16));
    assert_eq!(keyboard_label_for_letter('N'), ("ng".to_owned(), 16));
    assert_eq!(keyboard_label_for_letter('r'), ("r".to_owned(), 24));
}

#[test]
fn futhark_keyboard_labels_use_phonetics_for_uppercase_letters() {
    check_labels();
}

#[test]
fn keyboard_keyboard_labels_use_phonetics_for_uppercase_letters() {
    check_labels();
}

fn check_eliminated_only_while_binding() {
    let mut eliminated = EliminatedFutharkKeys::default();
    eliminated.insert('r');

    let mut battle_state = BattleState::default();
    battle_state.phase = BattlePhase::Binding;
    assert!(is_eliminated_for_binding('r', &eliminated, Some(battle_state.phase)));

    battle_state.phase = BattlePhase::Acting;
    assert!(!is_eliminated_for_binding('r', &eliminated, Some(battle_state.phase)));
}

#[test]
fn futhark_eliminated_keys_only_block_during_binding() {
    check_eliminated_only_while_binding();
}

#[test]
fn keyboard_eliminated_keys_only_block_during_binding() {
    check_eliminated_only_while_binding();
}

fn check_non_eliminated() {
    let eliminated = EliminatedFutharkKeys::default();
    let mut battle_state = BattleState::default();
    battle_state.phase = BattlePhase::Binding;

    assert!(!is_eliminated_for_binding('r', &eliminated, Some(battle_state.phase)));
}

#[test]
fn futhark_non_eliminated_keys_are_never_blocked() {
    check_non_eliminated();
}

#[test]
fn keyboard_non_eliminated_keys_are_never_blocked() {
    check_non_eliminated();
}

#[test]
fn eliminated_keys_form_a_set() {
    let mut eliminated = EliminatedFutharkKeys::default();
    eliminated.insert('r');
    eliminated.insert('r');
    eliminated.insert('k');
    assert_eq!(eliminated.len(), 2);
    assert!(eliminated.contains('k'));
    let mut snapshot = eliminated.snapshot();
    snapshot.sort_unstable();
    assert_eq!(snapshot, vec!['k', 'r']);
    eliminated.clear();
    assert_eq!(eliminated.len(), 0);
    assert!(!is_eliminated_for_binding('r', &eliminated, None));
    eliminated.restore(&['a', 'r', 'a']);
    assert_eq!(eliminated.len(), 2);
    assert!(eliminated.contains('a') && eliminated.contains('r'));
}

#[test]
fn tab_toggles_the_keyboard_legend() {
    let mut mode = FutharkKeyboardLegendMode::default();
    assert_eq!(mode, FutharkKeyboardLegendMode::Runes);
    toggle_futhark_keyboard_legend_mode(&mut mode, false);
    assert_eq!(mode, FutharkKeyboardLegendMode::Runes);
    toggle_futhark_keyboard_legend_mode(&mut mode, true);
    assert_eq!(mode, FutharkKeyboardLegendMode::Letters);
    toggle_futhark_keyboard_legend_mode(&mut mode, true);
    assert_eq!(mode, FutharkKeyboardLegendMode::Runes);
}

#[test]
fn last_typed_rune_wins() {
    assert_eq!(last_typed_futhark_character(&[]), None);
    assert_eq!(last_typed_futhark_character(&['f', 'u', 'T']), Some('T'));
}

#[test]
fn typed_text_becomes_rune_presses() {
    let aliases = FutharkKeyboardAliases::default();
    let mut keys = EliminatedFutharkKeys::default();
    keys.insert('a');
    let presses = route_typed_text("fq!a", &aliases, &keys, Some(BattlePhase::Acting));
    assert_eq!(
        presses,
        vec![KeyPress::Typed('f'), KeyPress::Typed('A'), KeyPress::Typed('a')]
    );
    let presses = route_typed_text("fa", &aliases, &keys, Some(BattlePhase::Binding));
    assert_eq!(presses, vec![KeyPress::Typed('f'), KeyPress::Eliminated]);
}

#[test]
fn clicked_keys_type_their_rune_unless_ruled_out() {
    let mut keys = EliminatedFutharkKeys::default();
    keys.insert('u');
    assert_eq!(route_key_click(0, &keys, Some(BattlePhase::Binding)), Some(KeyPress::Typed('f')));
    assert_eq!(route_key_click(1, &keys, Some(BattlePhase::Binding)), Some(KeyPress::Eliminated));
    assert_eq!(route_key_click(1, &keys, Some(BattlePhase::Acting)), Some(KeyPress::Typed('u')));
    assert_eq!(route_key_click(25, &keys, None), None);
}
