use ludumdare59::dictionary::{
    collect_futharkations, futharkation_from_word, futharkation_from_word_in_pronunciations,
    futharkation_from_word_with_override, load_default_futharkations, load_default_pronunciations,
    parse_pronunciation_line, parse_pronunciations,
    random_futharkation_with_rune_length, random_futharkation_with_rune_length_from_pronunciations,
    Futharkation, MissingIpaMapping,
    Pronunciation,
};
use rand::rngs::StdRng;
use rand::SeedableRng;

const SAMPLE_DICTIONARY: &str = "test /ˈtɛst/\njudge /ˈdʒədʒ/\n\n  screamer        /ˈskɹimɝ/  \r\nthing /ˈθɪŋ/\n";

#[test]
fn parses_a_dictionary_line() {
    let parsed = parse_pronunciation_line("screamer        /ˈskɹimɝ/").expect("valid line");

    assert_eq!(
        parsed,
        Pronunciation {
            word: "screamer".to_string(),
            ipa: "ˈskɹimɝ".to_string(),
        }
    );
}

#[test]
fn maps_pronunciation_to_futhark_letters() {
    let pronunciation = Pronunciation {
        word: "test".to_string(),
        ipa: "ˈtɛst".to_string(),
    };

    let mapped = pronunciation.to_futharkation().expect("mapped");
    assert_eq!(mapped.letters, "test");
}

#[test]
fn maps_dz_affricate_to_j() {
    let pronunciation = Pronunciation {
        word: "judge".to_string(),
        ipa: "ˈdʒədʒ".to_string(),
    };

    let mapped = pronunciation.to_futharkation().expect("mapped");
    assert_eq!(mapped.letters, "jej");
}

#[test]
fn random_futharkation_filters_by_rune_length() {
    let pronunciations = vec![
        Pronunciation {
            word: "short".to_string(),
            ipa: "fu".to_string(),
        },
        Pronunciation {
            word: "exact".to_string(),
            ipa: "futar".to_string(),
        },
        Pronunciation {
            word: "other".to_string(),
            ipa: "fut".to_string(),
        },
    ];
    let mut rng = StdRng::seed_from_u64(7);

    let selected =
        random_futharkation_with_rune_length_from_pronunciations(&pronunciations, 5, &mut rng)
            .expect("a five-rune entry");

    assert_eq!(selected.word, "exact");
    assert_eq!(selected.letters.chars().count(), 5);
}

#[test]
fn finds_futharkation_by_word_case_insensitive() {
    let pronunciations = vec![Pronunciation {
        word: "icebolt".to_string(),
        ipa: "isbolt".to_string(),
    }];

    let mapped =
        futharkation_from_word_in_pronunciations(&pronunciations, "IceBolt").expect("mapped");

    assert_eq!(mapped.word, "IceBolt");
    assert_eq!(mapped.letters, "isbolt");
}

#[test]
fn override_futharkation_validates_letters() {
    let mapped = futharkation_from_word_with_override(SAMPLE_DICTIONARY, "icebolt", Some("iSbolt"))
        .expect("override accepted");
    assert_eq!(mapped.letters, "iSbolt");

    let error = futharkation_from_word_with_override(SAMPLE_DICTIONARY, "icebolt", Some("bad!"))
        .expect_err("invalid override rejected");
    assert!(error.contains("invalid futhark symbol"));
}

#[test]
fn missing_dictionary_word_requires_override() {
    let error =
        futharkation_from_word(SAMPLE_DICTIONARY, "icebolt").expect_err("word should be missing");
    assert!(error.contains("not found in default pronunciations"));

    let mapped = futharkation_from_word_with_override(SAMPLE_DICTIONARY, "icebolt", Some("isebalt"))
        .expect("override accepted");
    assert_eq!(mapped.word, "icebolt");
    assert_eq!(mapped.letters, "isebalt");
}

#[test]
fn parse_reports_line_numbers_of_malformed_lines() {
    let error = parse_pronunciations("good /ɡʊd/\n\nno slashes here\n").expect_err("malformed");
    assert_eq!(error, "line 3: missing IPA start slash: no slashes here");

    let error = parse_pronunciations("half /open\n").expect_err("malformed");
    assert_eq!(error, "line 1: missing IPA end slash: half /open");

    let error = parse_pronunciations("a /b/\n   /ipa/\n").expect_err("malformed");
    assert_eq!(error, "line 2: missing word before IPA: /ipa/");

    let error = parse_pronunciations("word / /").expect_err("malformed");
    assert_eq!(error, "line 1: missing IPA body: word / /");
}

#[test]
fn parse_skips_blank_lines_and_trims_entries() {
    let entries = parse_pronunciations(SAMPLE_DICTIONARY).expect("parses");
    let words: Vec<&str> = entries.iter().map(|p| p.word.as_str()).collect();
    assert_eq!(words, vec!["test", "judge", "screamer", "thing"]);
    assert_eq!(entries[2].ipa, "ˈskɹimɝ");
    assert!(parse_pronunciations("").expect("empty parses").is_empty());
    assert!(parse_pronunciations("\n  \n\t\n").expect("blank parses").is_empty());
}

#[test]
fn default_dictionary_loads_and_spells_every_entry() {
    let entries = load_default_pronunciations(SAMPLE_DICTIONARY).expect("parses");
    assert_eq!(entries.len(), 4);
    let spelled = load_default_futharkations(SAMPLE_DICTIONARY).expect("spells");
    let letters: Vec<&str> = spelled.iter().map(|f| f.letters.as_str()).collect();
    assert_eq!(letters, vec!["test", "jej", "skrimr", "TiN"]);
}

#[test]
fn missing_ipa_symbol_is_reported() {
    let pronunciation = Pronunciation {
        word: "xylo".to_string(),
        ipa: "ʔa".to_string(),
    };
    let missing = pronunciation.to_futharkation().expect_err("no rune for ʔ");
    assert_eq!(
        missing,
        MissingIpaMapping {
            word: "xylo".to_string(),
            ipa: "ʔa".to_string(),
            symbol: 'ʔ',
        }
    );
    assert_eq!(
        missing.to_string(),
        "Missing futhark mapping for IPA symbol 'ʔ' in word 'xylo' (ʔa)"
    );
    let error = collect_futharkations(&[pronunciation]).expect_err("collect fails");
    assert_eq!(error, "Missing futhark mapping for IPA symbol 'ʔ' in word 'xylo' (ʔa)");
}

#[test]
fn dictionary_lookup_keeps_asked_spelling() {
    let mapped = futharkation_from_word(SAMPLE_DICTIONARY, "THING").expect("found");
    assert_eq!(
        mapped,
        Futharkation {
            word: "THING".to_string(),
            letters: "TiN".to_string(),
        }
    );
}

#[test]
fn override_is_trimmed_and_must_not_be_blank() {
    let mapped = futharkation_from_word_with_override("", "spell", Some("  futar \t"))
        .expect("trimmed override");
    assert_eq!(mapped.letters, "futar");
    let error = futharkation_from_word_with_override("", "spell", Some("   ")).expect_err("blank");
    assert_eq!(error, "spell 'spell' has an empty futharkation override");
    let error = futharkation_from_word_with_override("", "spell", Some(" fux ")).expect_err("bad");
    assert_eq!(
        error,
        "spell 'spell' has invalid futhark symbol 'x' in override 'fux'"
    );
}

#[test]
fn random_futharkation_reports_missing_length() {
    let pronunciations = vec![Pronunciation {
        word: "short".to_string(),
        ipa: "fu".to_string(),
    }];
    let mut rng = StdRng::seed_from_u64(1);
    let error =
        random_futharkation_with_rune_length_from_pronunciations(&pronunciations, 12, &mut rng)
            .expect_err("no twelve-rune entry");
    assert_eq!(
        error,
        "no futharkation found with rune length 12 in the default dictionary"
    );
}

#[test]
fn random_word_of_a_rune_length_comes_from_the_dictionary() {
    let mut rng = StdRng::seed_from_u64(3);
    let picked = random_futharkation_with_rune_length(SAMPLE_DICTIONARY, 4, &mut rng)
        .expect("a four-rune word exists");
    assert_eq!(picked.word, "test");
    assert_eq!(picked.letters, "test");
    let error = random_futharkation_with_rune_length(SAMPLE_DICTIONARY, 9, &mut rng)
        .expect_err("no nine-rune word");
    assert!(error.contains("rune length 9"), "{error}");
}

#[test]
fn skip_symbols_change_no_spelling() {
    let plain = Pronunciation { word: "test".to_string(), ipa: "tɛst".to_string() };
    let marked = Pronunciation { word: "test".to_string(), ipa: "ˈt.ɛː(s)t".to_string() };
    let a = plain.to_futharkation().expect("spelled");
    let b = marked.to_futharkation().expect("spelled");
    assert_eq!(a.letters, b.letters);
    assert!(b.letters.chars().count() <= marked.ipa.chars().count());
    // a mark between d and ʒ splits the affricate
    let split = Pronunciation { word: "x".to_string(), ipa: "d.ʒ".to_string() };
    assert_eq!(split.to_futharkation().expect("spelled").letters, "dS");
}

#[test]
fn no_override_spells_by_the_dictionary() {
    let with = futharkation_from_word_with_override(SAMPLE_DICTIONARY, "judge", None).expect("found");
    let plain = futharkation_from_word(SAMPLE_DICTIONARY, "judge").expect("found");
    assert_eq!(with, plain);
    assert_eq!(plain.letters, "jej");
}
