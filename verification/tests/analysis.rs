use onamer::analyzer::Analyzer;
use onamer::inventory::LetterInventory;
use onamer::rng::Rng;
use onamer::synth::WordModel;

fn words(ws: &[&str]) -> Vec<String> {
    ws.iter().map(|w| w.to_string()).collect()
}

#[test]
fn single_char_always_accepted() {
    assert!(Analyzer::analyze_word("a", true, false));
    assert!(Analyzer::analyze_word("a", false, true));
    assert!(Analyzer::analyze_word("a", true, true));
    assert!(Analyzer::analyze_word("a", false, false));
}

#[test]
fn hand_balance_rejects_pat() {
    // ('p','a'): 'p' is right-hand, 'a' is left-hand -> balanced;
    // ('a','t'): both left-hand -> fails, word rejected
    assert!(!Analyzer::analyze_word("pat", true, false));
}

#[test]
fn hand_balance_accepts_fu() {
    // 'f' is left-hand, 'u' is right-hand
    assert!(Analyzer::analyze_word("fu", true, false));
}

#[test]
fn no_flags_accept_everything() {
    assert!(Analyzer::analyze_word("zzzz", false, false));
    assert!(Analyzer::analyze_word("pat", false, false));
    assert!(Analyzer::analyze_word("qqq", false, false));
}

#[test]
fn smoothness_is_a_stub() {
    // the smoothness predicate holds of no pair, so any multi-character word
    // fails under the smoothness flag alone
    assert!(!Analyzer::analyze_word("fu", false, true));
    assert!(!Analyzer::analyze_word("ai", false, true));
}

#[test]
fn both_flags_accept_hand_balanced_pairs() {
    // hand-balance OR smoothness: the balanced pair carries it
    assert!(Analyzer::analyze_word("fu", true, true));
    assert!(!Analyzer::analyze_word("pat", true, true));
}

#[test]
fn hand_sets_are_fixed() {
    for c in "qwertasdfgzxcvb".chars() {
        assert!(onamer::analyzer::is_left_hand(c));
        assert!(!onamer::analyzer::is_right_hand(c));
    }
    for c in "yuiophjklnm".chars() {
        assert!(onamer::analyzer::is_right_hand(c));
        assert!(!onamer::analyzer::is_left_hand(c));
    }
    // outside both sets: never balances with anything
    assert!(!onamer::analyzer::is_left_hand('1'));
    assert!(!onamer::analyzer::is_right_hand('1'));
    assert!(!Analyzer::is_hand_optimized('1', 'a'));
}

#[test]
fn batch_verdicts() {
    let a = Analyzer::new(words(&["fu", "pat", "a"]));
    let res = a.analyze_batch(true, false);
    assert_eq!(res.verdict("fu"), Some(true));
    assert_eq!(res.verdict("pat"), Some(false));
    assert_eq!(res.verdict("a"), Some(true));
    assert_eq!(res.verdict("zz"), None);
}

#[test]
fn batch_is_idempotent() {
    let a = Analyzer::new(words(&["fu", "pat", "a", "konnichi", "zzz"]));
    let first = a.analyze_batch(true, false);
    let second = a.analyze_batch(true, false);
    for w in ["fu", "pat", "a", "konnichi", "zzz"] {
        assert_eq!(first.verdict(w), second.verdict(w));
    }
}

#[test]
fn duplicate_words_collapse() {
    let a = Analyzer::new(words(&["fu", "fu", "fu"]));
    let res = a.analyze_batch(true, false);
    assert_eq!(res.entries.len(), 1);
    assert_eq!(res.verdict("fu"), Some(true));
}

#[test]
fn empty_batch_yields_empty_mapping() {
    let a = Analyzer::new(words(&[]));
    let res = a.analyze_batch(true, true);
    assert_eq!(res.entries.len(), 0);
    assert_eq!(res.verdict("fu"), None);
}

#[test]
fn generated_words_accepted_without_flags() {
    let model = WordModel::Letter(LetterInventory::english());
    let mut rng = Rng::from_system();
    let ws = model.synthesize_words(10, 2, 3, &mut rng).unwrap();
    let a = Analyzer::new(ws.clone());
    let res = a.analyze_batch(false, false);
    for w in &ws {
        assert_eq!(res.verdict(w), Some(true));
    }
}
