//! Phoneme inventories: the immutable per-language data that syllable
//! synthesis draws from.
//!
//! A `LetterInventory` assembles syllables from separate vowel and consonant
//! slots (optionally with multi-consonant cluster-start tokens for the
//! leading slot of a word-initial syllable); a `UnitInventory` draws whole
//! syllable units from a catalog, of which a subset may be disallowed at the
//! start of a word. Constructors validate their input and fail fast with a
//! `ConfigError` rather than hand back an inventory that could not generate.

use vstd::prelude::*;

use crate::text::{str_to_vec, units_contain, units_view};
use crate::ConfigError;

verus! {

/// `units` with later repetitions removed: each unit is kept at its first
/// occurrence, in order.
pub open spec fn spec_dedup(units: Seq<Seq<char>>) -> Seq<Seq<char>>
    decreases units.len(),
{
    if units.len() == 0 {
        Seq::empty()
    } else {
        let rest = spec_dedup(units.drop_last());
        if rest.contains(units.last()) {
            rest
        } else {
            rest.push(units.last())
        }
    }
}

/// A sequence holds a unit exactly when its front part or its last element
/// does.
pub proof fn lemma_contains_split(s: Seq<Seq<char>>, x: Seq<char>)
    requires
        s.len() >= 1,
    ensures
        s.contains(x) <==> (s.drop_last().contains(x) || s.last() == x),
{
    let front = s.drop_last();
    if s.contains(x) {
        let i = choose|i: int| 0 <= i < s.len() && s[i] == x;
        if i < s.len() - 1 {
            assert(s.subrange(0, s.len() - 1)[i] == s[i]);
            assert(front[i] == x);
            assert(front.contains(x));
        }
    }
    if front.contains(x) {
        let i = choose|i: int| 0 <= i < front.len() && front[i] == x;
        assert(s.subrange(0, s.len() - 1)[i] == s[i]);
        assert(s.contains(x));
    }
    if s.last() == x {
        assert(s[s.len() - 1] == x);
        assert(s.contains(x));
    }
}

/// A pushed sequence holds a unit exactly when the base or the new element
/// does.
pub proof fn lemma_contains_push(s: Seq<Seq<char>>, y: Seq<char>, x: Seq<char>)
    ensures
        s.push(y).contains(x) <==> (s.contains(x) || y == x),
{
    lemma_contains_split(s.push(y), x);
    assert(s.push(y).drop_last() =~= s);
}

/// Deduplication keeps exactly the units of the input and leaves no
/// repetitions behind.
pub proof fn lemma_dedup_props(units: Seq<Seq<char>>)
    ensures
        forall|x: Seq<char>| spec_dedup(units).contains(x) <==> units.contains(x),
        spec_dedup(units).no_duplicates(),
    decreases units.len(),
{
    if units.len() == 0 {
    } else {
        let front = units.drop_last();
        let rest = spec_dedup(front);
        lemma_dedup_props(front);
        assert forall|x: Seq<char>|
            spec_dedup(units).contains(x) <==> units.contains(x) by {
            lemma_contains_split(units, x);
            if !rest.contains(units.last()) {
                lemma_contains_push(rest, units.last(), x);
            }
        }
        if !rest.contains(units.last()) {
            assert forall|i: int, j: int|
                0 <= i < spec_dedup(units).len() && 0 <= j < spec_dedup(units).len() && i
                    != j implies spec_dedup(units)[i] != spec_dedup(units)[j] by {
                if i < rest.len() && j < rest.len() {
                    assert(rest[i] != rest[j]);
                } else if i < rest.len() {
                    assert(rest.contains(rest[i]));
                } else if j < rest.len() {
                    assert(rest.contains(rest[j]));
                }
            }
        }
    }
}

/// The units that may begin a word: those of `units` that `restricted` does
/// not name, in order.
pub open spec fn spec_eligible(units: Seq<Seq<char>>, restricted: Seq<Seq<char>>) -> Seq<
    Seq<char>,
>
    decreases units.len(),
{
    if units.len() == 0 {
        Seq::empty()
    } else {
        let rest = spec_eligible(units.drop_last(), restricted);
        if restricted.contains(units.last()) {
            rest
        } else {
            rest.push(units.last())
        }
    }
}

/// A unit is start-eligible exactly when the unit set holds it and the
/// restricted set does not.
pub proof fn lemma_eligible_contains(units: Seq<Seq<char>>, restricted: Seq<Seq<char>>)
    ensures
        forall|x: Seq<char>|
            spec_eligible(units, restricted).contains(x) <==> (units.contains(x)
                && !restricted.contains(x)),
    decreases units.len(),
{
    if units.len() == 0 {
    } else {
        let front = units.drop_last();
        let rest = spec_eligible(front, restricted);
        lemma_eligible_contains(front, restricted);
        assert forall|x: Seq<char>|
            spec_eligible(units, restricted).contains(x) <==> (units.contains(x)
                && !restricted.contains(x)) by {
            lemma_contains_split(units, x);
            if !restricted.contains(units.last()) {
                lemma_contains_push(rest, units.last(), x);
            }
        }
    }
}

/// Part of the Japanese-like catalog: the plain vowel and base consonant rows.
pub open spec fn japanese_units_core() -> Seq<Seq<char>> {
    seq![
        "a"@, "i"@, "u"@, "e"@, "o"@, "ka"@, "ki"@, "ku"@,
        "ke"@, "ko"@, "sa"@, "shi"@, "su"@, "se"@, "so"@, "ta"@,
        "chi"@, "tsu"@, "te"@, "to"@, "na"@, "ni"@, "nu"@, "ne"@,
        "no"@, "ha"@, "hi"@, "fu"@, "he"@, "ho"@, "ma"@, "mi"@,
        "mu"@, "me"@, "mo"@,
    ]
}

/// Part of the Japanese-like catalog: the y/r/w rows and the voiced and p rows.
pub open spec fn japanese_units_voiced() -> Seq<Seq<char>> {
    seq![
        "ya"@, "yu"@, "yo"@, "ra"@, "ri"@, "ru"@, "re"@, "ro"@,
        "wa"@, "wo"@, "n"@, "ga"@, "gi"@, "gu"@, "ge"@, "go"@,
        "za"@, "ji"@, "zu"@, "ze"@, "zo"@, "da"@, "de"@, "do"@,
        "ba"@, "bi"@, "bu"@, "be"@, "bo"@, "pa"@, "pi"@, "pu"@,
        "pe"@, "po"@,
    ]
}

/// Part of the Japanese-like catalog: the palatalized (yoon) combinations.
pub open spec fn japanese_units_yoon() -> Seq<Seq<char>> {
    seq![
        "kya"@, "kyu"@, "kyo"@, "sha"@, "shu"@, "sho"@, "cha"@, "chu"@,
        "cho"@, "nya"@, "nyu"@, "nyo"@, "hya"@, "hyu"@, "hyo"@, "mya"@,
        "myu"@, "myo"@, "rya"@, "ryu"@, "ryo"@, "gya"@, "gyu"@, "gyo"@,
        "ja"@, "ju"@, "jo"@, "bya"@, "byu"@, "byo"@, "pya"@, "pyu"@,
        "pyo"@,
    ]
}

/// Part of the Japanese-like catalog: the geminate (doubled-consonant) units.
pub open spec fn japanese_units_geminate() -> Seq<Seq<char>> {
    seq![
        "kka"@, "kki"@, "kku"@, "kke"@, "kko"@, "ssa"@, "sshi"@, "ssu"@,
        "sse"@, "sso"@, "tta"@, "tti"@, "ttu"@, "tte"@, "tto"@, "ppa"@,
        "ppi"@, "ppu"@, "ppe"@, "ppo"@,
    ]
}

/// The full syllable-unit catalog of the bundled Japanese-like model.
pub open spec fn japanese_units() -> Seq<Seq<char>> {
    japanese_units_core() + japanese_units_voiced() + japanese_units_yoon()
        + japanese_units_geminate()
}

/// The units of the Japanese-like model that may not begin a word: the
/// geminate units.
pub open spec fn japanese_start_restricted() -> Seq<Seq<char>> {
    japanese_units_geminate()
}


/// Whether every unit in the list has at least `m` characters.
pub open spec fn all_units_min_len(s: Seq<Seq<char>>, m: int) -> bool
    decreases s.len(),
{
    if s.len() == 0 {
        true
    } else {
        all_units_min_len(s.drop_last(), m) && s.last().len() >= m
    }
}

/// The minimum-length bound distributes over push.
pub proof fn lemma_min_len_push(s: Seq<Seq<char>>, x: Seq<char>, m: int)
    ensures
        all_units_min_len(s.push(x), m) == (all_units_min_len(s, m) && x.len() >= m),
{
    assert(s.push(x).drop_last() =~= s);
    assert(s.push(x).last() == x);
}

/// The minimum-length bound distributes over concatenation.
pub proof fn lemma_min_len_concat(a: Seq<Seq<char>>, b: Seq<Seq<char>>, m: int)
    ensures
        all_units_min_len(a + b, m) == (all_units_min_len(a, m) && all_units_min_len(b, m)),
    decreases b.len(),
{
    if b.len() == 0 {
        assert(a + b =~= a);
    } else {
        lemma_min_len_concat(a, b.drop_last(), m);
        assert((a + b).drop_last() =~= a + b.drop_last());
        assert((a + b).last() == b.last());
    }
}

/// A weaker bound follows from a stronger one.
pub proof fn lemma_min_len_weaken(s: Seq<Seq<char>>, m1: int, m2: int)
    requires
        all_units_min_len(s, m2),
        m1 <= m2,
    ensures
        all_units_min_len(s, m1),
    decreases s.len(),
{
    if s.len() > 0 {
        lemma_min_len_weaken(s.drop_last(), m1, m2);
    }
}

/// Every unit a bounded list holds meets the bound.
pub proof fn lemma_min_len_contains(s: Seq<Seq<char>>, m: int, x: Seq<char>)
    requires
        all_units_min_len(s, m),
        s.contains(x),
    ensures
        x.len() >= m,
    decreases s.len(),
{
    let i = choose|i: int| 0 <= i < s.len() && s[i] == x;
    lemma_contains_split(s, x);
    if s.last() == x {
    } else {
        lemma_min_len_contains(s.drop_last(), m, x);
    }
}

/// A concatenation holds whatever either part holds.
pub proof fn lemma_concat_contains(a: Seq<Seq<char>>, b: Seq<Seq<char>>, x: Seq<char>)
    ensures
        a.contains(x) ==> (a + b).contains(x),
        b.contains(x) ==> (a + b).contains(x),
{
    if a.contains(x) {
        let i = choose|i: int| 0 <= i < a.len() && a[i] == x;
        assert((a + b)[i] == x);
    }
    if b.contains(x) {
        let i = choose|i: int| 0 <= i < b.len() && b[i] == x;
        assert((a + b)[a.len() + i] == x);
    }
}

/// Every unit of this part of the catalog has at least one character.
pub proof fn lemma_japanese_core_lens()
    ensures
        all_units_min_len(japanese_units_core(), 1),
        japanese_units_core().contains("a"@),
{
    reveal_strlit("a");
    reveal_strlit("i");
    reveal_strlit("u");
    reveal_strlit("e");
    reveal_strlit("o");
    reveal_strlit("ka");
    reveal_strlit("ki");
    reveal_strlit("ku");
    reveal_strlit("ke");
    reveal_strlit("ko");
    reveal_strlit("sa");
    reveal_strlit("shi");
    reveal_strlit("su");
    reveal_strlit("se");
    reveal_strlit("so");
    reveal_strlit("ta");
    reveal_strlit("chi");
    reveal_strlit("tsu");
    reveal_strlit("te");
    reveal_strlit("to");
    reveal_strlit("na");
    reveal_strlit("ni");
    reveal_strlit("nu");
    reveal_strlit("ne");
    reveal_strlit("no");
    reveal_strlit("ha");
    reveal_strlit("hi");
    reveal_strlit("fu");
    reveal_strlit("he");
    reveal_strlit("ho");
    reveal_strlit("ma");
    reveal_strlit("mi");
    reveal_strlit("mu");
    reveal_strlit("me");
    reveal_strlit("mo");
    let s0 = Seq::<Seq<char>>::empty();
    lemma_min_len_push(s0, "a"@, 1);
    lemma_contains_push(s0, "a"@, "a"@);
    let s1 = s0.push("a"@);
    lemma_min_len_push(s1, "i"@, 1);
    lemma_contains_push(s1, "i"@, "a"@);
    let s2 = s1.push("i"@);
    lemma_min_len_push(s2, "u"@, 1);
    lemma_contains_push(s2, "u"@, "a"@);
    let s3 = s2.push("u"@);
    lemma_min_len_push(s3, "e"@, 1);
    lemma_contains_push(s3, "e"@, "a"@);
    let s4 = s3.push("e"@);
    lemma_min_len_push(s4, "o"@, 1);
    lemma_contains_push(s4, "o"@, "a"@);
    let s5 = s4.push("o"@);
    lemma_min_len_push(s5, "ka"@, 1);
    lemma_contains_push(s5, "ka"@, "a"@);
    let s6 = s5.push("ka"@);
    lemma_min_len_push(s6, "ki"@, 1);
    lemma_contains_push(s6, "ki"@, "a"@);
    let s7 = s6.push("ki"@);
    lemma_min_len_push(s7, "ku"@, 1);
    lemma_contains_push(s7, "ku"@, "a"@);
    let s8 = s7.push("ku"@);
    lemma_min_len_push(s8, "ke"@, 1);
    lemma_contains_push(s8, "ke"@, "a"@);
    let s9 = s8.push("ke"@);
    lemma_min_len_push(s9, "ko"@, 1);
    lemma_contains_push(s9, "ko"@, "a"@);
    let s10 = s9.push("ko"@);
    lemma_min_len_push(s10, "sa"@, 1);
    lemma_contains_push(s10, "sa"@, "a"@);
    let s11 = s10.push("sa"@);
    lemma_min_len_push(s11, "shi"@, 1);
    lemma_contains_push(s11, "shi"@, "a"@);
    let s12 = s11.push("shi"@);
    lemma_min_len_push(s12, "su"@, 1);
    lemma_contains_push(s12, "su"@, "a"@);
    let s13 = s12.push("su"@);
    lemma_min_len_push(s13, "se"@, 1);
    lemma_contains_push(s13, "se"@, "a"@);
    let s14 = s13.push("se"@);
    lemma_min_len_push(s14, "so"@, 1);
    lemma_contains_push(s14, "so"@, "a"@);
    let s15 = s14.push("so"@);
    lemma_min_len_push(s15, "ta"@, 1);
    lemma_contains_push(s15, "ta"@, "a"@);
    let s16 = s15.push("ta"@);
    lemma_min_len_push(s16, "chi"@, 1);
    lemma_contains_push(s16, "chi"@, "a"@);
    let s17 = s16.push("chi"@);
    lemma_min_len_push(s17, "tsu"@, 1);
    lemma_contains_push(s17, "tsu"@, "a"@);
    let s18 = s17.push("tsu"@);
    lemma_min_len_push(s18, "te"@, 1);
    lemma_contains_push(s18, "te"@, "a"@);
    let s19 = s18.push("te"@);
    lemma_min_len_push(s19, "to"@, 1);
    lemma_contains_push(s19, "to"@, "a"@);
    let s20 = s19.push("to"@);
    lemma_min_len_push(s20, "na"@, 1);
    lemma_contains_push(s20, "na"@, "a"@);
    let s21 = s20.push("na"@);
    lemma_min_len_push(s21, "ni"@, 1);
    lemma_contains_push(s21, "ni"@, "a"@);
    let s22 = s21.push("ni"@);
    lemma_min_len_push(s22, "nu"@, 1);
    lemma_contains_push(s22, "nu"@, "a"@);
    let s23 = s22.push("nu"@);
    lemma_min_len_push(s23, "ne"@, 1);
    lemma_contains_push(s23, "ne"@, "a"@);
    let s24 = s23.push("ne"@);
    lemma_min_len_push(s24, "no"@, 1);
    lemma_contains_push(s24, "no"@, "a"@);
    let s25 = s24.push("no"@);
    lemma_min_len_push(s25, "ha"@, 1);
    lemma_contains_push(s25, "ha"@, "a"@);
    let s26 = s25.push("ha"@);
    lemma_min_len_push(s26, "hi"@, 1);
    lemma_contains_push(s26, "hi"@, "a"@);
    let s27 = s26.push("hi"@);
    lemma_min_len_push(s27, "fu"@, 1);
    lemma_contains_push(s27, "fu"@, "a"@);
    let s28 = s27.push("fu"@);
    lemma_min_len_push(s28, "he"@, 1);
    lemma_contains_push(s28, "he"@, "a"@);
    let s29 = s28.push("he"@);
    lemma_min_len_push(s29, "ho"@, 1);
    lemma_contains_push(s29, "ho"@, "a"@);
    let s30 = s29.push("ho"@);
    lemma_min_len_push(s30, "ma"@, 1);
    lemma_contains_push(s30, "ma"@, "a"@);
    let s31 = s30.push("ma"@);
    lemma_min_len_push(s31, "mi"@, 1);
    lemma_contains_push(s31, "mi"@, "a"@);
    let s32 = s31.push("mi"@);
    lemma_min_len_push(s32, "mu"@, 1);
    lemma_contains_push(s32, "mu"@, "a"@);
    let s33 = s32.push("mu"@);
    lemma_min_len_push(s33, "me"@, 1);
    lemma_contains_push(s33, "me"@, "a"@);
    let s34 = s33.push("me"@);
    lemma_min_len_push(s34, "mo"@, 1);
    lemma_contains_push(s34, "mo"@, "a"@);
    let s35 = s34.push("mo"@);
    assert(all_units_min_len(s35, 1));
    assert(japanese_units_core() == s35);
}

/// Every unit of this part of the catalog has at least one character.
pub proof fn lemma_japanese_voiced_lens()
    ensures
        all_units_min_len(japanese_units_voiced(), 1),
{
    reveal_strlit("ya");
    reveal_strlit("yu");
    reveal_strlit("yo");
    reveal_strlit("ra");
    reveal_strlit("ri");
    reveal_strlit("ru");
    reveal_strlit("re");
    reveal_strlit("ro");
    reveal_strlit("wa");
    reveal_strlit("wo");
    reveal_strlit("n");
    reveal_strlit("ga");
    reveal_strlit("gi");
    reveal_strlit("gu");
    reveal_strlit("ge");
    reveal_strlit("go");
    reveal_strlit("za");
    reveal_strlit("ji");
    reveal_strlit("zu");
    reveal_strlit("ze");
    reveal_strlit("zo");
    reveal_strlit("da");
    reveal_strlit("de");
    reveal_strlit("do");
    reveal_strlit("ba");
    reveal_strlit("bi");
    reveal_strlit("bu");
    reveal_strlit("be");
    reveal_strlit("bo");
    reveal_strlit("pa");
    reveal_strlit("pi");
    reveal_strlit("pu");
    reveal_strlit("pe");
    reveal_strlit("po");
    let s0 = Seq::<Seq<char>>::empty();
    lemma_min_len_push(s0, "ya"@, 1);
    let s1 = s0.push("ya"@);
    lemma_min_len_push(s1, "yu"@, 1);
    let s2 = s1.push("yu"@);
    lemma_min_len_push(s2, "yo"@, 1);
    let s3 = s2.push("yo"@);
    lemma_min_len_push(s3, "ra"@, 1);
    let s4 = s3.push("ra"@);
    lemma_min_len_push(s4, "ri"@, 1);
    let s5 = s4.push("ri"@);
    lemma_min_len_push(s5, "ru"@, 1);
    let s6 = s5.push("ru"@);
    lemma_min_len_push(s6, "re"@, 1);
    let s7 = s6.push("re"@);
    lemma_min_len_push(s7, "ro"@, 1);
    let s8 = s7.push("ro"@);
    lemma_min_len_push(s8, "wa"@, 1);
    let s9 = s8.push("wa"@);
    lemma_min_len_push(s9, "wo"@, 1);
    let s10 = s9.push("wo"@);
    lemma_min_len_push(s10, "n"@, 1);
    let s11 = s10.push("n"@);
    lemma_min_len_push(s11, "ga"@, 1);
    let s12 = s11.push("ga"@);
    lemma_min_len_push(s12, "gi"@, 1);
    let s13 = s12.push("gi"@);
    lemma_min_len_push(s13, "gu"@, 1);
    let s14 = s13.push("gu"@);
    lemma_min_len_push(s14, "ge"@, 1);
    let s15 = s14.push("ge"@);
    lemma_min_len_push(s15, "go"@, 1);
    let s16 = s15.push("go"@);
    lemma_min_len_push(s16, "za"@, 1);
    let s17 = s16.push("za"@);
    lemma_min_len_push(s17, "ji"@, 1);
    let s18 = s17.push("ji"@);
    lemma_min_len_push(s18, "zu"@, 1);
    let s19 = s18.push("zu"@);
    lemma_min_len_push(s19, "ze"@, 1);
    let s20 = s19.push("ze"@);
    lemma_min_len_push(s20, "zo"@, 1);
    let s21 = s20.push("zo"@);
    lemma_min_len_push(s21, "da"@, 1);
    let s22 = s21.push("da"@);
    lemma_min_len_push(s22, "de"@, 1);
    let s23 = s22.push("de"@);
    lemma_min_len_push(s23, "do"@, 1);
    let s24 = s23.push("do"@);
    lemma_min_len_push(s24, "ba"@, 1);
    let s25 = s24.push("ba"@);
    lemma_min_len_push(s25, "bi"@, 1);
    let s26 = s25.push("bi"@);
    lemma_min_len_push(s26, "bu"@, 1);
    let s27 = s26.push("bu"@);
    lemma_min_len_push(s27, "be"@, 1);
    let s28 = s27.push("be"@);
    lemma_min_len_push(s28, "bo"@, 1);
    let s29 = s28.push("bo"@);
    lemma_min_len_push(s29, "pa"@, 1);
    let s30 = s29.push("pa"@);
    lemma_min_len_push(s30, "pi"@, 1);
    let s31 = s30.push("pi"@);
    lemma_min_len_push(s31, "pu"@, 1);
    let s32 = s31.push("pu"@);
    lemma_min_len_push(s32, "pe"@, 1);
    let s33 = s32.push("pe"@);
    lemma_min_len_push(s33, "po"@, 1);
    let s34 = s33.push("po"@);
    assert(all_units_min_len(s34, 1));
    assert(japanese_units_voiced() == s34);
}

/// Every unit of this part of the catalog has at least one character.
pub proof fn lemma_japanese_yoon_lens()
    ensures
        all_units_min_len(japanese_units_yoon(), 1),
{
    reveal_strlit("kya");
    reveal_strlit("kyu");
    reveal_strlit("kyo");
    reveal_strlit("sha");
    reveal_strlit("shu");
    reveal_strlit("sho");
    reveal_strlit("cha");
    reveal_strlit("chu");
    reveal_strlit("cho");
    reveal_strlit("nya");
    reveal_strlit("nyu");
    reveal_strlit("nyo");
    reveal_strlit("hya");
    reveal_strlit("hyu");
    reveal_strlit("hyo");
    reveal_strlit("mya");
    reveal_strlit("myu");
    reveal_strlit("myo");
    reveal_strlit("rya");
    reveal_strlit("ryu");
    reveal_strlit("ryo");
    reveal_strlit("gya");
    reveal_strlit("gyu");
    reveal_strlit("gyo");
    reveal_strlit("ja");
    reveal_strlit("ju");
    reveal_strlit("jo");
    reveal_strlit("bya");
    reveal_strlit("byu");
    reveal_strlit("byo");
    reveal_strlit("pya");
    reveal_strlit("pyu");
    reveal_strlit("pyo");
    let s0 = Seq::<Seq<char>>::empty();
    lemma_min_len_push(s0, "kya"@, 1);
    let s1 = s0.push("kya"@);
    lemma_min_len_push(s1, "kyu"@, 1);
    let s2 = s1.push("kyu"@);
    lemma_min_len_push(s2, "kyo"@, 1);
    let s3 = s2.push("kyo"@);
    lemma_min_len_push(s3, "sha"@, 1);
    let s4 = s3.push("sha"@);
    lemma_min_len_push(s4, "shu"@, 1);
    let s5 = s4.push("shu"@);
    lemma_min_len_push(s5, "sho"@, 1);
    let s6 = s5.push("sho"@);
    lemma_min_len_push(s6, "cha"@, 1);
    let s7 = s6.push("cha"@);
    lemma_min_len_push(s7, "chu"@, 1);
    let s8 = s7.push("chu"@);
    lemma_min_len_push(s8, "cho"@, 1);
    let s9 = s8.push("cho"@);
    lemma_min_len_push(s9, "nya"@, 1);
    let s10 = s9.push("nya"@);
    lemma_min_len_push(s10, "nyu"@, 1);
    let s11 = s10.push("nyu"@);
    lemma_min_len_push(s11, "nyo"@, 1);
    let s12 = s11.push("nyo"@);
    lemma_min_len_push(s12, "hya"@, 1);
    let s13 = s12.push("hya"@);
    lemma_min_len_push(s13, "hyu"@, 1);
    let s14 = s13.push("hyu"@);
    lemma_min_len_push(s14, "hyo"@, 1);
    let s15 = s14.push("hyo"@);
    lemma_min_len_push(s15, "mya"@, 1);
    let s16 = s15.push("mya"@);
    lemma_min_len_push(s16, "myu"@, 1);
    let s17 = s16.push("myu"@);
    lemma_min_len_push(s17, "myo"@, 1);
    let s18 = s17.push("myo"@);
    lemma_min_len_push(s18, "rya"@, 1);
    let s19 = s18.push("rya"@);
    lemma_min_len_push(s19, "ryu"@, 1);
    let s20 = s19.push("ryu"@);
    lemma_min_len_push(s20, "ryo"@, 1);
    let s21 = s20.push("ryo"@);
    lemma_min_len_push(s21, "gya"@, 1);
    let s22 = s21.push("gya"@);
    lemma_min_len_push(s22, "gyu"@, 1);
    let s23 = s22.push("gyu"@);
    lemma_min_len_push(s23, "gyo"@, 1);
    let s24 = s23.push("gyo"@);
    lemma_min_len_push(s24, "ja"@, 1);
    let s25 = s24.push("ja"@);
    lemma_min_len_push(s25, "ju"@, 1);
    let s26 = s25.push("ju"@);
    lemma_min_len_push(s26, "jo"@, 1);
    let s27 = s26.push("jo"@);
    lemma_min_len_push(s27, "bya"@, 1);
    let s28 = s27.push("bya"@);
    lemma_min_len_push(s28, "byu"@, 1);
    let s29 = s28.push("byu"@);
    lemma_min_len_push(s29, "byo"@, 1);
    let s30 = s29.push("byo"@);
    lemma_min_len_push(s30, "pya"@, 1);
    let s31 = s30.push("pya"@);
    lemma_min_len_push(s31, "pyu"@, 1);
    let s32 = s31.push("pyu"@);
    lemma_min_len_push(s32, "pyo"@, 1);
    let s33 = s32.push("pyo"@);
    assert(all_units_min_len(s33, 1));
    assert(japanese_units_yoon() == s33);
}

/// Every unit of this part of the catalog has at least two characters.
pub proof fn lemma_japanese_geminate_lens()
    ensures
        all_units_min_len(japanese_units_geminate(), 2),
{
    reveal_strlit("kka");
    reveal_strlit("kki");
    reveal_strlit("kku");
    reveal_strlit("kke");
    reveal_strlit("kko");
    reveal_strlit("ssa");
    reveal_strlit("sshi");
    reveal_strlit("ssu");
    reveal_strlit("sse");
    reveal_strlit("sso");
    reveal_strlit("tta");
    reveal_strlit("tti");
    reveal_strlit("ttu");
    reveal_strlit("tte");
    reveal_strlit("tto");
    reveal_strlit("ppa");
    reveal_strlit("ppi");
    reveal_strlit("ppu");
    reveal_strlit("ppe");
    reveal_strlit("ppo");
    let s0 = Seq::<Seq<char>>::empty();
    lemma_min_len_push(s0, "kka"@, 2);
    let s1 = s0.push("kka"@);
    lemma_min_len_push(s1, "kki"@, 2);
    let s2 = s1.push("kki"@);
    lemma_min_len_push(s2, "kku"@, 2);
    let s3 = s2.push("kku"@);
    lemma_min_len_push(s3, "kke"@, 2);
    let s4 = s3.push("kke"@);
    lemma_min_len_push(s4, "kko"@, 2);
    let s5 = s4.push("kko"@);
    lemma_min_len_push(s5, "ssa"@, 2);
    let s6 = s5.push("ssa"@);
    lemma_min_len_push(s6, "sshi"@, 2);
    let s7 = s6.push("sshi"@);
    lemma_min_len_push(s7, "ssu"@, 2);
    let s8 = s7.push("ssu"@);
    lemma_min_len_push(s8, "sse"@, 2);
    let s9 = s8.push("sse"@);
    lemma_min_len_push(s9, "sso"@, 2);
    let s10 = s9.push("sso"@);
    lemma_min_len_push(s10, "tta"@, 2);
    let s11 = s10.push("tta"@);
    lemma_min_len_push(s11, "tti"@, 2);
    let s12 = s11.push("tti"@);
    lemma_min_len_push(s12, "ttu"@, 2);
    let s13 = s12.push("ttu"@);
    lemma_min_len_push(s13, "tte"@, 2);
    let s14 = s13.push("tte"@);
    lemma_min_len_push(s14, "tto"@, 2);
    let s15 = s14.push("tto"@);
    lemma_min_len_push(s15, "ppa"@, 2);
    let s16 = s15.push("ppa"@);
    lemma_min_len_push(s16, "ppi"@, 2);
    let s17 = s16.push("ppi"@);
    lemma_min_len_push(s17, "ppu"@, 2);
    let s18 = s17.push("ppu"@);
    lemma_min_len_push(s18, "ppe"@, 2);
    let s19 = s18.push("ppe"@);
    lemma_min_len_push(s19, "ppo"@, 2);
    let s20 = s19.push("ppo"@);
    assert(all_units_min_len(s20, 2));
    assert(japanese_units_geminate() == s20);
}

/// The bundled Japanese catalog, as written, passes every check of
/// `UnitInventory::new`: it is non-empty, holds no empty unit, names only
/// catalog units as start-restricted, and leaves at least one unit eligible
/// to begin a word.
pub proof fn lemma_japanese_catalog_accepted()
    ensures
        japanese_units().len() >= 1,
        forall|x: Seq<char>| japanese_units().contains(x) ==> x.len() >= 1,
        forall|x: Seq<char>|
            japanese_start_restricted().contains(x) ==> japanese_units().contains(x),
        exists|x: Seq<char>|
            japanese_units().contains(x) && !japanese_start_restricted().contains(x),
{
    lemma_japanese_core_lens();
    lemma_japanese_voiced_lens();
    lemma_japanese_yoon_lens();
    lemma_japanese_geminate_lens();
    let a = japanese_units_core();
    let b = japanese_units_voiced();
    let c = japanese_units_yoon();
    let d = japanese_units_geminate();
    lemma_min_len_weaken(d, 1, 2);
    lemma_min_len_concat(a, b, 1);
    lemma_min_len_concat(a + b, c, 1);
    lemma_min_len_concat(a + b + c, d, 1);
    assert(all_units_min_len(japanese_units(), 1));
    assert forall|x: Seq<char>| japanese_units().contains(x) implies x.len() >= 1 by {
        lemma_min_len_contains(japanese_units(), 1, x);
    }
    assert forall|x: Seq<char>|
        japanese_start_restricted().contains(x) implies japanese_units().contains(x) by {
        lemma_concat_contains(a + b + c, d, x);
    }
    reveal_strlit("a");
    lemma_concat_contains(a, b, "a"@);
    lemma_concat_contains(a + b, c, "a"@);
    lemma_concat_contains(a + b + c, d, "a"@);
    assert(japanese_units().contains("a"@));
    if japanese_start_restricted().contains("a"@) {
        lemma_min_len_contains(d, 2, "a"@);
    }
    assert(japanese_units().contains("a"@) && !japanese_start_restricted().contains("a"@));
    let i = choose|i: int| 0 <= i < japanese_units().len() && japanese_units()[i] == "a"@;
}

/// Taking the view of each unit distributes over concatenation.
pub proof fn lemma_units_view_append(a: Seq<Vec<char>>, b: Seq<Vec<char>>)
    ensures
        units_view(a + b) == units_view(a) + units_view(b),
{
    assert(units_view(a + b) =~= units_view(a) + units_view(b));
}

/// Letter-based phoneme inventory: syllables are assembled from consonant and
/// vowel slots. When `cluster_starts` is non-empty the model is cluster-aware:
/// the leading consonant slot of a word-initial syllable draws a whole
/// cluster-start token instead of a single consonant.
#[derive(Debug)]
pub struct LetterInventory {
    /// The vowel characters, each drawn uniformly for a vowel slot.
    pub vowels: Vec<char>,
    /// The consonant characters, each drawn uniformly for a consonant slot.
    pub consonants: Vec<char>,
    /// Multi-consonant tokens usable only as the leading consonant group of a
    /// word-initial syllable; empty for models without clusters.
    pub cluster_starts: Vec<Vec<char>>,
}

impl LetterInventory {
    /// The inventory can generate: both required sets are non-empty and no
    /// cluster-start token is the empty string.
    pub open spec fn wf(&self) -> bool {
        &&& self.vowels@.len() >= 1
        &&& self.consonants@.len() >= 1
        &&& forall|i: int|
            0 <= i < self.cluster_starts@.len() ==> units_view(self.cluster_starts@)[i].len() >= 1
    }

    /// Validate and build a letter-based inventory. Fails fast: an empty
    /// vowel or consonant set, or an empty cluster-start token, is a
    /// configuration error and no inventory is produced.
    #[verifier::loop_isolation(false)]
    pub fn new(vowels: Vec<char>, consonants: Vec<char>, cluster_starts: Vec<Vec<char>>) -> (r:
        Result<LetterInventory, ConfigError>)
        ensures
            r is Ok <==> vowels@.len() >= 1 && consonants@.len() >= 1 && (forall|i: int|
                0 <= i < cluster_starts@.len() ==> units_view(cluster_starts@)[i].len() >= 1),
            vowels@.len() == 0 ==> r == Err::<LetterInventory, ConfigError>(
                ConfigError::EmptyVowelSet,
            ),
            vowels@.len() >= 1 && consonants@.len() == 0 ==> r == Err::<
                LetterInventory,
                ConfigError,
            >(ConfigError::EmptyConsonantSet),
            vowels@.len() >= 1 && consonants@.len() >= 1 && !(forall|i: int|
                0 <= i < cluster_starts@.len() ==> units_view(cluster_starts@)[i].len() >= 1) ==> r
                == Err::<LetterInventory, ConfigError>(ConfigError::EmptyToken),
            r matches Ok(inv) ==> inv.wf() && inv.vowels@ == vowels@ && inv.consonants@
                == consonants@ && units_view(inv.cluster_starts@) == units_view(cluster_starts@),
    {
        if vowels.len() == 0 {
            return Err(ConfigError::EmptyVowelSet);
        }
        if consonants.len() == 0 {
            return Err(ConfigError::EmptyConsonantSet);
        }
        let mut i: usize = 0;
        while i < cluster_starts.len()
            invariant
                i <= cluster_starts@.len(),
                forall|j: int| 0 <= j < i ==> units_view(cluster_starts@)[j].len() >= 1,
            decreases cluster_starts@.len() - i,
        {
            proof {
                assert(units_view(cluster_starts@)[i as int] == cluster_starts@[i as int]@);
            }
            if cluster_starts[i].len() == 0 {
                return Err(ConfigError::EmptyToken);
            }
            i = i + 1;
        }
        Ok(LetterInventory { vowels, consonants, cluster_starts })
    }

    /// The bundled English-like model: five vowels, twenty-one consonants,
    /// no cluster-start tokens.
    pub fn english() -> (inv: LetterInventory)
        ensures
            inv.wf(),
            inv.vowels@ == "aeiou"@,
            inv.consonants@ == "qwrtypsdfghjklzxcvbnm"@,
            inv.cluster_starts@.len() == 0,
    {
        let vowels = str_to_vec("aeiou");
        let consonants = str_to_vec("qwrtypsdfghjklzxcvbnm");
        proof {
            reveal_strlit("aeiou");
            reveal_strlit("qwrtypsdfghjklzxcvbnm");
        }
        match LetterInventory::new(vowels, consonants, Vec::new()) {
            Ok(inv) => {
                proof {
                    assert(units_view(inv.cluster_starts@).len() == inv.cluster_starts@.len());
                }
                inv
            },
            Err(_) => vstd::pervasive::unreached(),
        }
    }
}

/// Unit-based (mora) phoneme inventory: syllables are drawn whole from a
/// catalog of units; a subset of the units may not begin a word.
#[derive(Debug)]
pub struct UnitInventory {
    /// The full unit catalog, free of duplicates.
    pub units: Vec<Vec<char>>,
    /// The units disallowed as the first syllable of a word.
    pub start_restricted: Vec<Vec<char>>,
    /// The units a word may begin with: exactly the non-restricted units, in
    /// catalog order. Precomputed so that a word-initial draw needs no
    /// retries and can never fail.
    pub start_eligible: Vec<Vec<char>>,
}

impl UnitInventory {
    /// The inventory can generate: the catalog is non-empty, duplicate-free
    /// and holds no empty unit; every restricted unit is in the catalog; and
    /// at least one unit may begin a word.
    pub open spec fn wf(&self) -> bool {
        let uv = units_view(self.units@);
        let rv = units_view(self.start_restricted@);
        let ev = units_view(self.start_eligible@);
        &&& uv.len() >= 1
        &&& forall|i: int| 0 <= i < uv.len() ==> uv[i].len() >= 1
        &&& uv.no_duplicates()
        &&& forall|j: int| 0 <= j < rv.len() ==> uv.contains(rv[j])
        &&& ev == spec_eligible(uv, rv)
        &&& ev.len() >= 1
    }

    /// Validate and build a unit-based inventory. Duplicate units collapse
    /// silently (the first occurrence is kept). Fails fast: an empty catalog,
    /// an empty-string unit, a restricted unit missing from the catalog, or a
    /// catalog whose every unit is restricted is a configuration error.
    #[verifier::loop_isolation(false)]
    pub fn new(units: Vec<Vec<char>>, start_restricted: Vec<Vec<char>>) -> (r: Result<
        UnitInventory,
        ConfigError,
    >)
        ensures
            r is Ok <==> units_view(units@).len() >= 1 && (forall|x: Seq<char>|
                units_view(units@).contains(x) ==> x.len() >= 1) && (forall|x: Seq<char>|
                units_view(start_restricted@).contains(x) ==> units_view(units@).contains(x)) && (
            exists|x: Seq<char>|
                units_view(units@).contains(x) && !units_view(start_restricted@).contains(x)),
            units_view(units@).len() == 0 ==> r == Err::<UnitInventory, ConfigError>(
                ConfigError::EmptyUnitSet,
            ),
            units_view(units@).len() >= 1 && (exists|x: Seq<char>|
                units_view(units@).contains(x) && x.len() == 0) ==> r == Err::<
                UnitInventory,
                ConfigError,
            >(ConfigError::EmptyToken),
            units_view(units@).len() >= 1 && (forall|x: Seq<char>|
                units_view(units@).contains(x) ==> x.len() >= 1) && (exists|x: Seq<char>|
                units_view(start_restricted@).contains(x) && !units_view(units@).contains(x))
                ==> r == Err::<UnitInventory, ConfigError>(ConfigError::UnknownRestrictedUnit),
            units_view(units@).len() >= 1 && (forall|x: Seq<char>|
                units_view(units@).contains(x) ==> x.len() >= 1) && (forall|x: Seq<char>|
                units_view(start_restricted@).contains(x) ==> units_view(units@).contains(x)) && (
            forall|x: Seq<char>|
                units_view(units@).contains(x) ==> units_view(start_restricted@).contains(x))
                ==> r == Err::<UnitInventory, ConfigError>(ConfigError::AllUnitsRestricted),
            r matches Ok(inv) ==> inv.wf() && units_view(inv.units@) == spec_dedup(
                units_view(units@),
            ) && units_view(inv.start_restricted@) == units_view(start_restricted@) && (forall|
                x: Seq<char>,
            |
                units_view(inv.units@).contains(x) <==> units_view(units@).contains(x)),
    {
        proof {
            lemma_dedup_props(units_view(units@));
        }
        let us = dedup_units(&units);
        proof {
            assert(units_view(us@).len() == us@.len());
            if units_view(units@).len() >= 1 && us@.len() == 0 {
                assert(units_view(units@).contains(units_view(units@)[0]));
                assert(units_view(us@).contains(units_view(units@)[0]));
            }
        }
        if us.len() == 0 {
            return Err(ConfigError::EmptyUnitSet);
        }
        let mut i: usize = 0;
        while i < us.len()
            invariant
                i <= us@.len(),
                forall|j: int| 0 <= j < i ==> units_view(us@)[j].len() >= 1,
                units_view(us@) == spec_dedup(units_view(units@)),
                forall|x: Seq<char>|
                    units_view(us@).contains(x) <==> units_view(units@).contains(x),
            decreases us@.len() - i,
        {
            proof {
                assert(units_view(us@)[i as int] == us@[i as int]@);
            }
            if us[i].len() == 0 {
                proof {
                    assert(units_view(us@).contains(units_view(us@)[i as int]));
                }
                return Err(ConfigError::EmptyToken);
            }
            i = i + 1;
        }
        proof {
            assert forall|x: Seq<char>| units_view(units@).contains(x) implies x.len() >= 1 by {
                assert(units_view(us@).contains(x));
                let j = choose|j: int| 0 <= j < units_view(us@).len() && units_view(us@)[j] == x;
            }
        }
        let mut j: usize = 0;
        while j < start_restricted.len()
            invariant
                j <= start_restricted@.len(),
                forall|k: int|
                    0 <= k < j ==> units_view(us@).contains(units_view(start_restricted@)[k]),
                forall|x: Seq<char>|
                    units_view(us@).contains(x) <==> units_view(units@).contains(x),
            decreases start_restricted@.len() - j,
        {
            if !units_contain(&us, &start_restricted[j]) {
                proof {
                    assert(units_view(start_restricted@).contains(
                        units_view(start_restricted@)[j as int],
                    ));
                }
                return Err(ConfigError::UnknownRestrictedUnit);
            }
            j = j + 1;
        }
        proof {
            assert forall|x: Seq<char>|
                units_view(start_restricted@).contains(x) implies units_view(units@).contains(
                x,
            ) by {
                let k = choose|k: int|
                    0 <= k < units_view(start_restricted@).len() && units_view(start_restricted@)[k]
                        == x;
            }
        }
        let eligible = filter_eligible(&us, &start_restricted);
        proof {
            lemma_eligible_contains(units_view(us@), units_view(start_restricted@));
        }
        if eligible.len() == 0 {
            proof {
                assert forall|x: Seq<char>|
                    units_view(units@).contains(x) implies units_view(start_restricted@).contains(
                    x,
                ) by {
                    assert(units_view(us@).contains(x));
                    if !units_view(start_restricted@).contains(x) {
                        assert(spec_eligible(units_view(us@), units_view(start_restricted@))
                            .contains(x));
                    }
                }
            }
            return Err(ConfigError::AllUnitsRestricted);
        }
        proof {
            let ev = units_view(eligible@);
            assert(ev.contains(ev[0]));
            assert(units_view(units@).contains(ev[0]) && !units_view(start_restricted@).contains(
                ev[0],
            ));
        }
        Ok(UnitInventory { units: us, start_restricted, start_eligible: eligible })
    }

    /// The bundled Japanese-like model: kana syllables in romanized form, of
    /// which the geminate units may not begin a word. Built through `new`;
    /// the catalog as written passes every check, so an inventory always
    /// comes back.
    pub fn japanese() -> (inv: UnitInventory)
        ensures
            inv.wf(),
            forall|x: Seq<char>|
                units_view(inv.units@).contains(x) <==> japanese_units().contains(x),
            units_view(inv.start_restricted@) == japanese_start_restricted(),
    {
        let mut units = build_japanese_core();
        let ghost u0 = units@;
        let mut part = build_japanese_voiced();
        let ghost p1 = part@;
        units.append(&mut part);
        proof {
            lemma_units_view_append(u0, p1);
        }
        let ghost u1 = units@;
        let mut part2 = build_japanese_yoon();
        let ghost p2 = part2@;
        units.append(&mut part2);
        proof {
            lemma_units_view_append(u1, p2);
        }
        let ghost u2 = units@;
        let mut part3 = build_japanese_geminate();
        let ghost p3 = part3@;
        units.append(&mut part3);
        proof {
            lemma_units_view_append(u2, p3);
        }
        let restricted = build_japanese_geminate();
        proof {
            assert(units_view(units@) == japanese_units());
            assert(units_view(restricted@) == japanese_start_restricted());
            lemma_japanese_catalog_accepted();
        }
        match UnitInventory::new(units, restricted) {
            Ok(inv) => inv,
            Err(_) => vstd::pervasive::unreached(),
        }
    }
}


/// Append one unit, given as a string, to a unit list.
fn push_unit(units: &mut Vec<Vec<char>>, s: &str)
    ensures
        units_view(final(units)@) == units_view(old(units)@).push(s@),
{
    units.push(str_to_vec(s));
    proof {
        assert(units_view(units@) =~= units_view(old(units)@).push(s@));
    }
}

/// Builds the plain vowel and base consonant rows of the Japanese-like catalog.
#[verifier::rlimit(100)]
fn build_japanese_core() -> (r: Vec<Vec<char>>)
    ensures
        units_view(r@) == japanese_units_core(),
{
    let mut r: Vec<Vec<char>> = Vec::new();
    proof {
        assert(units_view(r@) =~= Seq::<Seq<char>>::empty());
    }
    push_unit(&mut r, "a");
    push_unit(&mut r, "i");
    push_unit(&mut r, "u");
    push_unit(&mut r, "e");
    push_unit(&mut r, "o");
    push_unit(&mut r, "ka");
    push_unit(&mut r, "ki");
    push_unit(&mut r, "ku");
    push_unit(&mut r, "ke");
    push_unit(&mut r, "ko");
    push_unit(&mut r, "sa");
    push_unit(&mut r, "shi");
    push_unit(&mut r, "su");
    push_unit(&mut r, "se");
    push_unit(&mut r, "so");
    push_unit(&mut r, "ta");
    push_unit(&mut r, "chi");
    push_unit(&mut r, "tsu");
    push_unit(&mut r, "te");
    push_unit(&mut r, "to");
    push_unit(&mut r, "na");
    push_unit(&mut r, "ni");
    push_unit(&mut r, "nu");
    push_unit(&mut r, "ne");
    push_unit(&mut r, "no");
    push_unit(&mut r, "ha");
    push_unit(&mut r, "hi");
    push_unit(&mut r, "fu");
    push_unit(&mut r, "he");
    push_unit(&mut r, "ho");
    push_unit(&mut r, "ma");
    push_unit(&mut r, "mi");
    push_unit(&mut r, "mu");
    push_unit(&mut r, "me");
    push_unit(&mut r, "mo");
    r
}

/// Builds the y/r/w rows and the voiced and p rows of the Japanese-like catalog.
#[verifier::rlimit(100)]
fn build_japanese_voiced() -> (r: Vec<Vec<char>>)
    ensures
        units_view(r@) == japanese_units_voiced(),
{
    let mut r: Vec<Vec<char>> = Vec::new();
    proof {
        assert(units_view(r@) =~= Seq::<Seq<char>>::empty());
    }
    push_unit(&mut r, "ya");
    push_unit(&mut r, "yu");
    push_unit(&mut r, "yo");
    push_unit(&mut r, "ra");
    push_unit(&mut r, "ri");
    push_unit(&mut r, "ru");
    push_unit(&mut r, "re");
    push_unit(&mut r, "ro");
    push_unit(&mut r, "wa");
    push_unit(&mut r, "wo");
    push_unit(&mut r, "n");
    push_unit(&mut r, "ga");
    push_unit(&mut r, "gi");
    push_unit(&mut r, "gu");
    push_unit(&mut r, "ge");
    push_unit(&mut r, "go");
    push_unit(&mut r, "za");
    push_unit(&mut r, "ji");
    push_unit(&mut r, "zu");
    push_unit(&mut r, "ze");
    push_unit(&mut r, "zo");
    push_unit(&mut r, "da");
    push_unit(&mut r, "de");
    push_unit(&mut r, "do");
    push_unit(&mut r, "ba");
    push_unit(&mut r, "bi");
    push_unit(&mut r, "bu");
    push_unit(&mut r, "be");
    push_unit(&mut r, "bo");
    push_unit(&mut r, "pa");
    push_unit(&mut r, "pi");
    push_unit(&mut r, "pu");
    push_unit(&mut r, "pe");
    push_unit(&mut r, "po");
    r
}

/// Builds the palatalized (yoon) combinations of the Japanese-like catalog.
#[verifier::rlimit(100)]
fn build_japanese_yoon() -> (r: Vec<Vec<char>>)
    ensures
        units_view(r@) == japanese_units_yoon(),
{
    let mut r: Vec<Vec<char>> = Vec::new();
    proof {
        assert(units_view(r@) =~= Seq::<Seq<char>>::empty());
    }
    push_unit(&mut r, "kya");
    push_unit(&mut r, "kyu");
    push_unit(&mut r, "kyo");
    push_unit(&mut r, "sha");
    push_unit(&mut r, "shu");
    push_unit(&mut r, "sho");
    push_unit(&mut r, "cha");
    push_unit(&mut r, "chu");
    push_unit(&mut r, "cho");
    push_unit(&mut r, "nya");
    push_unit(&mut r, "nyu");
    push_unit(&mut r, "nyo");
    push_unit(&mut r, "hya");
    push_unit(&mut r, "hyu");
    push_unit(&mut r, "hyo");
    push_unit(&mut r, "mya");
    push_unit(&mut r, "myu");
    push_unit(&mut r, "myo");
    push_unit(&mut r, "rya");
    push_unit(&mut r, "ryu");
    push_unit(&mut r, "ryo");
    push_unit(&mut r, "gya");
    push_unit(&mut r, "gyu");
    push_unit(&mut r, "gyo");
    push_unit(&mut r, "ja");
    push_unit(&mut r, "ju");
    push_unit(&mut r, "jo");
    push_unit(&mut r, "bya");
    push_unit(&mut r, "byu");
    push_unit(&mut r, "byo");
    push_unit(&mut r, "pya");
    push_unit(&mut r, "pyu");
    push_unit(&mut r, "pyo");
    r
}

/// Builds the geminate (doubled-consonant) units of the Japanese-like catalog.
#[verifier::rlimit(100)]
fn build_japanese_geminate() -> (r: Vec<Vec<char>>)
    ensures
        units_view(r@) == japanese_units_geminate(),
{
    let mut r: Vec<Vec<char>> = Vec::new();
    proof {
        assert(units_view(r@) =~= Seq::<Seq<char>>::empty());
    }
    push_unit(&mut r, "kka");
    push_unit(&mut r, "kki");
    push_unit(&mut r, "kku");
    push_unit(&mut r, "kke");
    push_unit(&mut r, "kko");
    push_unit(&mut r, "ssa");
    push_unit(&mut r, "sshi");
    push_unit(&mut r, "ssu");
    push_unit(&mut r, "sse");
    push_unit(&mut r, "sso");
    push_unit(&mut r, "tta");
    push_unit(&mut r, "tti");
    push_unit(&mut r, "ttu");
    push_unit(&mut r, "tte");
    push_unit(&mut r, "tto");
    push_unit(&mut r, "ppa");
    push_unit(&mut r, "ppi");
    push_unit(&mut r, "ppu");
    push_unit(&mut r, "ppe");
    push_unit(&mut r, "ppo");
    r
}

/// A copy of one unit's characters.
pub(crate) fn clone_unit(u: &Vec<char>) -> (r: Vec<char>)
    ensures
        r@ == u@,
{
    let mut r: Vec<char> = Vec::new();
    let mut i: usize = 0;
    while i < u.len()
        invariant
            i <= u@.len(),
            r@ == u@.subrange(0, i as int),
        decreases u@.len() - i,
    {
        r.push(u[i]);
        proof {
            assert(r@ =~= u@.subrange(0, i + 1));
        }
        i = i + 1;
    }
    proof {
        assert(r@ =~= u@);
    }
    r
}

/// The list with later repetitions of a unit removed, first occurrences kept.
fn dedup_units(list: &Vec<Vec<char>>) -> (r: Vec<Vec<char>>)
    ensures
        units_view(r@) == spec_dedup(units_view(list@)),
{
    let mut r: Vec<Vec<char>> = Vec::new();
    let mut i: usize = 0;
    while i < list.len()
        invariant
            i <= list@.len(),
            units_view(r@) == spec_dedup(units_view(list@).take(i as int)),
        decreases list@.len() - i,
    {
        let ghost prefix = units_view(list@).take(i as int);
        let ghost next = units_view(list@).take(i + 1);
        proof {
            assert(next.drop_last() =~= prefix);
            assert(next.last() == units_view(list@)[i as int]);
        }
        if !units_contain(&r, &list[i]) {
            let u = clone_unit(&list[i]);
            r.push(u);
            proof {
                assert(units_view(r@) =~= spec_dedup(prefix).push(units_view(list@)[i as int]));
            }
        }
        i = i + 1;
    }
    proof {
        assert(units_view(list@).take(list@.len() as int) =~= units_view(list@));
    }
    r
}

/// The units of `list` that `restricted` does not name, in order.
fn filter_eligible(list: &Vec<Vec<char>>, restricted: &Vec<Vec<char>>) -> (r: Vec<Vec<char>>)
    ensures
        units_view(r@) == spec_eligible(units_view(list@), units_view(restricted@)),
{
    let mut r: Vec<Vec<char>> = Vec::new();
    let mut i: usize = 0;
    while i < list.len()
        invariant
            i <= list@.len(),
            units_view(r@) == spec_eligible(units_view(list@).take(i as int), units_view(restricted@)),
        decreases list@.len() - i,
    {
        let ghost prefix = units_view(list@).take(i as int);
        let ghost next = units_view(list@).take(i + 1);
        proof {
            assert(next.drop_last() =~= prefix);
            assert(next.last() == units_view(list@)[i as int]);
        }
        if !units_contain(restricted, &list[i]) {
            let u = clone_unit(&list[i]);
            r.push(u);
            proof {
                assert(units_view(r@) =~= spec_eligible(prefix, units_view(restricted@)).push(
                    units_view(list@)[i as int],
                ));
            }
        }
        i = i + 1;
    }
    proof {
        assert(units_view(list@).take(list@.len() as int) =~= units_view(list@));
    }
    r
}

} // verus!
