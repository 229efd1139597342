//! A generator of pronounceable pseudo-words.
//!
//! Two bundled phoneme models — a letter-based English-like one and a
//! unit-based Japanese-like one — feed a syllable synthesizer and a word
//! synthesizer; a batch analyzer then classifies words by typing-ergonomics
//! predicates over adjacent character pairs.

use vstd::prelude::*;

pub mod analyzer;
pub mod inventory;
pub mod language;
pub mod rng;
pub mod synth;
pub mod text;

verus! {

/// Why a configuration is rejected, always before any word is generated.
#[derive(Clone, Copy, Debug, PartialEq, Eq, Structural)]
pub enum ConfigError {
    /// Syllable-count bounds with `min == 0` or `min > max`.
    InvalidSyllableRange,
    /// A language selector that names no bundled model.
    UnsupportedLanguage,
    /// A letter-based model with no vowels.
    EmptyVowelSet,
    /// A letter-based model with no consonants.
    EmptyConsonantSet,
    /// A unit-based model with no syllable units.
    EmptyUnitSet,
    /// An empty string offered as a syllable unit or cluster-start token.
    EmptyToken,
    /// A start-restricted unit that is not in the unit set.
    UnknownRestrictedUnit,
    /// Every unit start-restricted: no word could ever begin.
    AllUnitsRestricted,
}

} // verus!
