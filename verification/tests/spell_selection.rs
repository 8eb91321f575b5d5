use ludumdare59::spell_selection::{
    handle_selection_click, open_selection_on_binding_success, selection_candidates, Candidate,
    SelectionMode, SpellSelection,
};
use ludumdare59::spellbook::{LearnedSpells, SpellDef};
use rand::rngs::StdRng;
use rand::SeedableRng;

fn spell(word: &str) -> SpellDef {
    SpellDef {
        word: word.to_string(),
        futharkation: word.to_string(),
        starter: false,
    }
}

fn learned(words: &[&str]) -> LearnedSpells {
    LearnedSpells {
        words: words.iter().map(|w| w.to_string()).collect(),
    }
}

#[test]
fn selection_offers_two_unlearned_spells() {
    let spells = vec![spell("bop"), spell("zap"), spell("iceblast"), spell("ward")];
    let known = learned(&["bop"]);
    let mut rng = StdRng::seed_from_u64(11);
    let cands = selection_candidates(&spells, &known, &mut rng);
    assert_eq!(cands.len(), 2);
    assert!(cands.iter().all(|c| c.mode == SelectionMode::Learn));
    assert_ne!(cands[0].word, cands[1].word);
    for c in &cands {
        assert!(["zap", "iceblast", "ward"].contains(&c.word.as_str()));
    }
}

#[test]
fn selection_offers_fewer_when_few_remain() {
    let spells = vec![spell("bop"), spell("zap")];
    let known = learned(&["bop"]);
    let mut rng = StdRng::seed_from_u64(2);
    let cands = selection_candidates(&spells, &known, &mut rng);
    assert_eq!(cands.len(), 1);
    assert_eq!(cands[0].word, "zap");
}

#[test]
fn many_learned_words_add_unlearn_and_relearn() {
    let spells = vec![spell("a"), spell("b")];
    let words: Vec<String> = (0..12).map(|i| format!("w{i}")).collect();
    let known = LearnedSpells { words: words.clone() };
    let mut rng = StdRng::seed_from_u64(5);
    let cands = selection_candidates(&spells, &known, &mut rng);
    assert_eq!(cands.len(), 4);
    assert_eq!(cands[2].mode, SelectionMode::Unlearn);
    assert_eq!(cands[3].mode, SelectionMode::Relearn);
    assert!(words.contains(&cands[2].word));
    assert!(words.contains(&cands[3].word));

    let eight = LearnedSpells { words: words[..8].to_vec() };
    let cands = selection_candidates(&spells, &eight, &mut rng);
    assert_eq!(cands.len(), 3);
    assert_eq!(cands[2].mode, SelectionMode::Unlearn);
}

#[test]
fn selection_stays_closed_in_tutorial_or_when_everything_is_learned() {
    let spells = vec![spell("bop")];
    let mut rng = StdRng::seed_from_u64(1);
    let mut selection = SpellSelection::default();
    open_selection_on_binding_success(&mut selection, true, &spells, &learned(&[]), &mut rng);
    assert!(!selection.is_open());
    open_selection_on_binding_success(&mut selection, false, &spells, &learned(&["bop"]), &mut rng);
    assert!(!selection.is_open());
    open_selection_on_binding_success(&mut selection, false, &spells, &learned(&[]), &mut rng);
    assert!(selection.is_open());
    assert_eq!(selection.candidates.as_ref().unwrap()[0].word, "bop");
}

#[test]
fn choosing_a_card_changes_what_is_learned_and_closes() {
    let mut selection = SpellSelection {
        candidates: Some(vec![]),
    };
    let mut known = learned(&["bop", "zap", "bop"]);
    let learn = Candidate {
        word: "ward".to_string(),
        mode: SelectionMode::Learn,
    };
    handle_selection_click(Some(&learn), &mut known, &mut selection);
    assert!(!selection.is_open());
    assert_eq!(known.words, vec!["bop", "zap", "bop", "ward"]);

    let unlearn = Candidate {
        word: "bop".to_string(),
        mode: SelectionMode::Unlearn,
    };
    handle_selection_click(Some(&unlearn), &mut known, &mut selection);
    assert_eq!(known.words, vec!["zap", "bop", "ward"]);

    let relearn = Candidate {
        word: "zap".to_string(),
        mode: SelectionMode::Relearn,
    };
    handle_selection_click(Some(&relearn), &mut known, &mut selection);
    assert_eq!(known.words, vec!["zap", "bop", "ward"]);

    handle_selection_click(None, &mut known, &mut selection);
    assert_eq!(known.words, vec!["zap", "bop", "ward"]);
}

#[test]
fn unique_words_keeps_first_occurrences() {
    let known = learned(&["bop", "zap", "bop", "ward", "zap"]);
    assert_eq!(known.unique_words(), vec!["bop", "zap", "ward"]);
}

#[test]
fn selection_opens_to_forget_when_everything_is_learned() {
    let words: Vec<String> = (0..8).map(|i| format!("w{i}")).collect();
    let spells: Vec<SpellDef> = words.iter().map(|w| spell(w)).collect();
    let known = LearnedSpells { words: words.clone() };
    let mut rng = StdRng::seed_from_u64(6);
    let mut selection = SpellSelection::default();
    open_selection_on_binding_success(&mut selection, false, &spells, &known, &mut rng);
    let cands = selection.candidates.expect("the selection opens");
    assert_eq!(cands.len(), 1);
    assert_eq!(cands[0].mode, SelectionMode::Unlearn);
    assert!(words.contains(&cands[0].word));
}
