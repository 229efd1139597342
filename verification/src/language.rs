//! Language selection: mapping a selector string onto a bundled word model.

use vstd::prelude::*;

use crate::inventory::{LetterInventory, UnitInventory};
use crate::synth::WordModel;
use crate::text::str_to_vec;
use crate::ConfigError;

verus! {

/// Whether `c` is an ASCII uppercase letter.
pub open spec fn spec_ascii_upper(c: char) -> bool {
    65 <= c as u32 <= 90
}

/// Whether two characters match, ignoring ASCII case.
pub open spec fn spec_char_eq_ci(a: char, b: char) -> bool {
    ||| a == b
    ||| (spec_ascii_upper(a) && a as u32 + 32 == b as u32)
    ||| (spec_ascii_upper(b) && b as u32 + 32 == a as u32)
}

/// Whether two character sequences match, ignoring ASCII case.
pub open spec fn spec_eq_ci(a: Seq<char>, b: Seq<char>) -> bool {
    a.len() == b.len() && forall|i: int| 0 <= i < a.len() ==> #[trigger] spec_char_eq_ci(a[i], b[i])
}

/// Whether two characters match, ignoring ASCII case.
fn char_eq_ci(a: char, b: char) -> (r: bool)
    ensures
        r == spec_char_eq_ci(a, b),
{
    let au = a as u32;
    let bu = b as u32;
    a == b || (65 <= au && au <= 90 && au + 32 == bu) || (65 <= bu && bu <= 90 && bu + 32 == au)
}

/// Whether two character vectors match, ignoring ASCII case.
fn chars_eq_ci(a: &Vec<char>, b: &Vec<char>) -> (r: bool)
    ensures
        r == spec_eq_ci(a@, b@),
{
    if a.len() != b.len() {
        return false;
    }
    let mut i: usize = 0;
    while i < a.len()
        invariant
            i <= a@.len(),
            a@.len() == b@.len(),
            forall|k: int| 0 <= k < i ==> #[trigger] spec_char_eq_ci(a@[k], b@[k]),
        decreases a@.len() - i,
    {
        if !char_eq_ci(a[i], b[i]) {
            return false;
        }
        i = i + 1;
    }
    true
}

/// The bundled language models.
#[derive(Clone, Copy, Debug, PartialEq, Eq, Structural)]
pub enum Language {
    English,
    Japanese,
}

impl Language {
    /// The language a selector names, matched ignoring ASCII case; any other
    /// selector is a configuration error.
    pub fn from_name(name: &str) -> (r: Result<Language, ConfigError>)
        ensures
            spec_eq_ci(name@, "english"@) ==> r == Ok::<Language, ConfigError>(Language::English),
            spec_eq_ci(name@, "japanese"@) ==> r == Ok::<Language, ConfigError>(
                Language::Japanese,
            ),
            !spec_eq_ci(name@, "english"@) && !spec_eq_ci(name@, "japanese"@) ==> r == Err::<
                Language,
                ConfigError,
            >(ConfigError::UnsupportedLanguage),
    {
        proof {
            reveal_strlit("english");
            reveal_strlit("japanese");
        }
        let v = str_to_vec(name);
        let eng = str_to_vec("english");
        let jap = str_to_vec("japanese");
        if chars_eq_ci(&v, &eng) {
            Ok(Language::English)
        } else if chars_eq_ci(&v, &jap) {
            Ok(Language::Japanese)
        } else {
            Err(ConfigError::UnsupportedLanguage)
        }
    }
}

impl WordModel {
    /// The bundled model for a language: the letter-based English-like model,
    /// or the unit-based Japanese-like one.
    pub fn for_language(lang: Language) -> (m: WordModel)
        ensures
            m.wf(),
            lang == Language::English ==> m is Letter,
            lang == Language::Japanese ==> m is Unit,
    {
        match lang {
            Language::English => WordModel::Letter(LetterInventory::english()),
            Language::Japanese => WordModel::Unit(UnitInventory::japanese()),
        }
    }
}

} // verus!
