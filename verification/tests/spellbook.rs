use ludumdare59::dictionary::futharkation_from_word_with_override;
use ludumdare59::spellbook::{book_from_raw_spells, Book, BookError, LearnedSpells, RawSpellDef, SpellDef};

#[test]
fn learned_spells_reset_to_starters_includes_only_starter_marked() {
    let spells = vec![
        SpellDef {
            word: "keep".into(),
            futharkation: "kep".into(),
            starter: true,
        },
        SpellDef {
            word: "skip".into(),
            futharkation: "skip".into(),
            starter: false,
        },
    ];
    let mut learned = LearnedSpells::default();
    learned.reset_to_starters(&spells);
    assert!(learned.contains("keep"));
    assert!(!learned.contains("skip"));

    learned.insert("skip".into());
    assert!(learned.contains("skip"));
    let filtered: Vec<&str> = learned
        .filter_spells(&spells)
        .into_iter()
        .map(|s| s.word.as_str())
        .collect();
    assert_eq!(filtered, vec!["keep", "skip"]);
}

#[test]
fn learning_a_word_twice_keeps_one_copy() {
    let mut learned = LearnedSpells::default();
    learned.insert("bop".into());
    learned.insert("bop".into());
    assert_eq!(learned.words, vec!["bop".to_string()]);
}

#[test]
fn supports_explicit_futharkation_in_json() {
    let raw: serde_json::Value = serde_json::from_str(
        r#"[
            {
                "word": "custom",
                "letters": "futar",
                "effects": [{"type": "damage", "amount": 1}]
            }
        ]"#,
    )
    .expect("parses");

    let mapped = futharkation_from_word_with_override(
        "",
        raw[0]["word"].as_str().expect("word"),
        raw[0]["letters"].as_str(),
    )
    .expect("mapped");

    assert_eq!(mapped.letters, "futar");
}

#[test]
fn spells_cast_as_their_rune_spelling() {
    let book = Book(vec![SpellDef {
        word: "shield".into(),
        futharkation: "Sild".into(),
        starter: true,
    }]);
    let spell = &book.spells()[0];
    let futharkation = spell.as_futharkation();
    assert_eq!(futharkation.word, "shield");
    assert_eq!(futharkation.letters, "Sild");
}

#[test]
fn book_is_built_from_raw_spells_in_order() {
    let dictionary = "test /ˈtɛst/\n";
    let raw = vec![
        RawSpellDef {
            word: "test".into(),
            futharkation_spec: None,
            starter: true,
        },
        RawSpellDef {
            word: "icebolt".into(),
            futharkation_spec: Some(" iSbolt ".into()),
            starter: false,
        },
    ];
    let spells = book_from_raw_spells(dictionary, &raw).expect("all spells spelled");
    assert_eq!(spells.len(), 2);
    assert_eq!(spells[0].word, "test");
    assert!(spells[0].starter);
    assert_eq!(spells[1].futharkation, "iSbolt");
    assert!(!spells[1].starter);
    let book = Book(spells);
    assert_eq!(book.spells().len(), 2);
}

#[test]
fn book_fails_on_the_first_unspellable_spell() {
    let raw = vec![
        RawSpellDef {
            word: "nowhere".into(),
            futharkation_spec: None,
            starter: false,
        },
        RawSpellDef {
            word: "bad".into(),
            futharkation_spec: Some("b!d".into()),
            starter: false,
        },
    ];
    match book_from_raw_spells("test /ˈtɛst/\n", &raw) {
        Err(BookError::Futharkation(msg)) => {
            assert!(msg.contains("nowhere"), "{msg}");
            assert!(msg.contains("not found in default pronunciations"), "{msg}");
        }
        Ok(_) => panic!("the book should not build"),
    }
}
