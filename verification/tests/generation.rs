use onamer::inventory::{LetterInventory, UnitInventory};
use onamer::language::Language;
use onamer::rng::Rng;
use onamer::synth::WordModel;
use onamer::text::str_to_vec;
use onamer::ConfigError;

fn unit(s: &str) -> Vec<char> {
    str_to_vec(s)
}

#[test]
fn replay_pick_reduces_modulo() {
    let mut rng = Rng::from_values(vec![7]);
    assert_eq!(rng.pick(3), 1);
    // the tape is exhausted: every further draw is 0
    assert_eq!(rng.pick(3), 0);
    assert_eq!(rng.pick(100), 0);
}

#[test]
fn replay_pick_in_range_is_closed() {
    let mut rng = Rng::from_values(vec![5]);
    assert_eq!(rng.pick_in_range(2, 4), 4); // 2 + 5 % 3
}

#[test]
fn system_pick_stays_in_bounds() {
    let mut rng = Rng::from_system();
    for _ in 0..200 {
        assert!(rng.pick(5) < 5);
        let r = rng.pick_in_range(2, 4);
        assert!((2..=4).contains(&r));
    }
}

#[test]
fn english_replay_word_exact() {
    // count: 0 % 1 -> 2 syllables; syllable 1: pattern 0 (CV) -> 'q','a';
    // syllable 2: pattern 1 (VC) -> 'a','q'
    let model = WordModel::Letter(LetterInventory::english());
    let mut rng = Rng::from_values(vec![0, 0, 0, 0, 1, 0, 0]);
    let w = model.synthesize_word(2, 2, &mut rng).unwrap();
    assert_eq!(w, "qaaq");
}

#[test]
fn english_replay_word_cvc() {
    // count: 0 % 3 -> 1 syllable; pattern 2 (CVC): consonants[3]='t',
    // vowels[1]='e', consonants[4]='y'
    let model = WordModel::Letter(LetterInventory::english());
    let mut rng = Rng::from_values(vec![0, 2, 3, 1, 4]);
    let w = model.synthesize_word(1, 3, &mut rng).unwrap();
    assert_eq!(w, "tey");
}

#[test]
fn english_determinism_under_fixed_randomness() {
    let model = WordModel::Letter(LetterInventory::english());
    let tape = vec![17, 4, 9, 2, 33, 8, 1, 26, 5, 12, 7];
    let mut a = Rng::from_values(tape.clone());
    let mut b = Rng::from_values(tape);
    let wa = model.synthesize_word(2, 3, &mut a).unwrap();
    let wb = model.synthesize_word(2, 3, &mut b).unwrap();
    assert_eq!(wa, wb);
}

#[test]
fn english_syllable_count_within_range() {
    // every English syllable is 2 or 3 characters, so a word of 2..=3
    // syllables is 4..=9 characters long
    let model = WordModel::Letter(LetterInventory::english());
    let mut rng = Rng::from_system();
    for _ in 0..50 {
        let w = model.synthesize_word(2, 3, &mut rng).unwrap();
        assert!(w.len() >= 4 && w.len() <= 9, "unexpected length: {w}");
    }
}

#[test]
fn batch_has_requested_count() {
    let model = WordModel::Letter(LetterInventory::english());
    let mut rng = Rng::from_system();
    let ws = model.synthesize_words(10, 2, 3, &mut rng).unwrap();
    assert_eq!(ws.len(), 10);
}

#[test]
fn range_error_before_any_word() {
    let model = WordModel::Letter(LetterInventory::english());
    let mut rng = Rng::from_system();
    assert_eq!(
        model.synthesize_word(5, 2, &mut rng),
        Err(ConfigError::InvalidSyllableRange)
    );
    assert_eq!(
        model.synthesize_word(0, 2, &mut rng),
        Err(ConfigError::InvalidSyllableRange)
    );
    match model.synthesize_words(10, 5, 2, &mut rng) {
        Err(ConfigError::InvalidSyllableRange) => {}
        other => panic!("expected a range error, got {other:?}"),
    }
}

#[test]
fn japanese_model_shape() {
    let inv = UnitInventory::japanese();
    assert_eq!(inv.units.len(), 122);
    assert_eq!(inv.start_restricted.len(), 20);
    assert_eq!(inv.start_eligible.len(), 102);
}

#[test]
fn japanese_replay_word_exact() {
    let inv = UnitInventory::japanese();
    let model = WordModel::Unit(inv);
    // count: 0 % 1 -> 2 syllables; start syllable: eligible[0] = "a";
    // second syllable: units[0] = "a"
    let mut rng = Rng::from_values(vec![0, 0, 0]);
    let w = model.synthesize_word(2, 2, &mut rng).unwrap();
    assert_eq!(w, "aa");
}

#[test]
fn japanese_first_syllable_never_start_restricted() {
    let restricted = [
        "kka", "kki", "kku", "kke", "kko", "ssa", "sshi", "ssu", "sse", "sso", "tta", "tti",
        "ttu", "tte", "tto", "ppa", "ppi", "ppu", "ppe", "ppo",
    ];
    let inv = UnitInventory::japanese();
    let model = WordModel::Unit(inv);
    // sweep the whole word-initial draw space
    for i in 0..250 {
        let mut rng = Rng::from_values(vec![0, i, 0]);
        let w = model.synthesize_word(1, 1, &mut rng).unwrap();
        for r in restricted.iter() {
            assert!(!w.starts_with(r), "word {w} begins with restricted unit {r}");
        }
    }
}

#[test]
fn japanese_determinism_under_fixed_randomness() {
    let a = WordModel::Unit(UnitInventory::japanese());
    let b = WordModel::Unit(UnitInventory::japanese());
    let tape = vec![2, 57, 101, 13, 88];
    let mut ra = Rng::from_values(tape.clone());
    let mut rb = Rng::from_values(tape);
    assert_eq!(
        a.synthesize_word(2, 4, &mut ra).unwrap(),
        b.synthesize_word(2, 4, &mut rb).unwrap()
    );
}

#[test]
fn duplicate_units_collapse() {
    let inv = UnitInventory::new(vec![unit("ka"), unit("ka"), unit("yu")], vec![]).unwrap();
    assert_eq!(inv.units.len(), 2);
    assert_eq!(inv.start_eligible.len(), 2);
}

#[test]
fn cluster_start_used_when_flip_hits() {
    let inv = LetterInventory::new(
        str_to_vec("aeiou"),
        str_to_vec("qwrtypsdfghjklzxcvbnm"),
        vec![unit("st"), unit("pl")],
    )
    .unwrap();
    let model = WordModel::Letter(inv);
    // count -> 1 syllable; flip 1 -> cluster-eligible start; pattern 0 (CV):
    // cluster[0] = "st", vowels[0] = 'a'
    let mut rng = Rng::from_values(vec![0, 1, 0, 0, 0]);
    assert_eq!(model.synthesize_word(1, 1, &mut rng).unwrap(), "sta");
}

#[test]
fn cluster_start_skipped_when_flip_misses() {
    let inv = LetterInventory::new(
        str_to_vec("aeiou"),
        str_to_vec("qwrtypsdfghjklzxcvbnm"),
        vec![unit("st"), unit("pl")],
    )
    .unwrap();
    let model = WordModel::Letter(inv);
    // flip 0 -> plain single-consonant start: consonants[0] = 'q', vowels[0] = 'a'
    let mut rng = Rng::from_values(vec![0, 0, 0, 0, 0]);
    assert_eq!(model.synthesize_word(1, 1, &mut rng).unwrap(), "qa");
}

#[test]
fn letter_inventory_errors() {
    assert_eq!(
        LetterInventory::new(vec![], str_to_vec("bc"), vec![]).unwrap_err(),
        ConfigError::EmptyVowelSet
    );
    assert_eq!(
        LetterInventory::new(str_to_vec("ae"), vec![], vec![]).unwrap_err(),
        ConfigError::EmptyConsonantSet
    );
    assert_eq!(
        LetterInventory::new(str_to_vec("ae"), str_to_vec("bc"), vec![vec![]]).unwrap_err(),
        ConfigError::EmptyToken
    );
}

#[test]
fn unit_inventory_errors() {
    assert_eq!(
        UnitInventory::new(vec![], vec![]).unwrap_err(),
        ConfigError::EmptyUnitSet
    );
    assert_eq!(
        UnitInventory::new(vec![unit("ka"), vec![]], vec![]).unwrap_err(),
        ConfigError::EmptyToken
    );
    assert_eq!(
        UnitInventory::new(vec![unit("ka")], vec![unit("yu")]).unwrap_err(),
        ConfigError::UnknownRestrictedUnit
    );
    assert_eq!(
        UnitInventory::new(vec![unit("ka")], vec![unit("ka")]).unwrap_err(),
        ConfigError::AllUnitsRestricted
    );
}

#[test]
fn language_from_name() {
    assert_eq!(Language::from_name("english"), Ok(Language::English));
    assert_eq!(Language::from_name("ENGLISH"), Ok(Language::English));
    assert_eq!(Language::from_name("JaPaNeSe"), Ok(Language::Japanese));
    assert_eq!(
        Language::from_name("klingon"),
        Err(ConfigError::UnsupportedLanguage)
    );
    assert_eq!(
        Language::from_name(""),
        Err(ConfigError::UnsupportedLanguage)
    );
}

#[test]
fn model_for_language() {
    let e = WordModel::for_language(Language::English);
    assert!(matches!(e, WordModel::Letter(_)));
    let j = WordModel::for_language(Language::Japanese);
    assert!(matches!(j, WordModel::Unit(_)));
}
