//! Syllable and word synthesis.
//!
//! A `WordModel` is either letter-based or unit-based; both offer the same
//! operations. `synthesize_syllable` produces one syllable from uniform
//! draws; `synthesize_word` draws a syllable count from a closed range and
//! concatenates that many syllables, the first at word-initial position.
//! Every outcome is pinned structurally (`is_word_of`), and on a replaying
//! randomness handle the exact result is a function of the tape
//! (`spec_word`), which is what makes generation deterministic under fixed
//! randomness.

use vstd::prelude::*;
use vstd::string::StringExecFns;

use crate::inventory::{clone_unit, lemma_eligible_contains, LetterInventory, UnitInventory};
use crate::rng::{replay_pick, replay_step, Rng};
use crate::text::{chars_to_string, units_view};
use crate::ConfigError;

verus! {

/// The generator-state relation every draw obeys: the mode and the tape never
/// change, and the system generator consumes no tape positions.
pub open spec fn rng_frame(pre: Rng, post: Rng) -> bool {
    &&& post.system == pre.system
    &&& post.values == pre.values
    &&& pre.system ==> post.pos == pre.pos
}

/// Whether `g` is a valid leading consonant group for a syllable: one of the
/// cluster-start tokens for a word-initial syllable of a cluster-aware model,
/// a single consonant otherwise.
pub open spec fn is_lead_group(inv: LetterInventory, is_word_start: bool, g: Seq<char>) -> bool {
    if is_word_start && inv.cluster_starts@.len() > 0 {
        units_view(inv.cluster_starts@).contains(g)
    } else {
        g.len() == 1 && inv.consonants@.contains(g[0])
    }
}

/// Whether `s` is a syllable the letter-based model can produce at the given
/// position: a lead-vowel (CV), vowel-consonant (VC), or
/// lead-vowel-consonant (CVC) arrangement.
pub open spec fn is_letter_syllable(
    inv: LetterInventory,
    is_word_start: bool,
    s: Seq<char>,
) -> bool {
    ||| (exists|g: Seq<char>, v: char|
        #![trigger g.push(v)]
        s == g.push(v) && is_lead_group(inv, is_word_start, g) && inv.vowels@.contains(v))
    ||| (s.len() == 2 && inv.vowels@.contains(s[0]) && inv.consonants@.contains(s[1]))
    ||| (exists|g: Seq<char>, v: char, c: char|
        #![trigger g.push(v).push(c)]
        s == g.push(v).push(c) && is_lead_group(inv, is_word_start, g) && inv.vowels@.contains(v)
            && inv.consonants@.contains(c))
}

/// Whether `s` is a syllable the unit-based model can produce at the given
/// position: a catalog unit, and never a start-restricted one at the start of
/// a word.
pub open spec fn is_unit_syllable(inv: UnitInventory, is_word_start: bool, s: Seq<char>) -> bool {
    &&& units_view(inv.units@).contains(s)
    &&& is_word_start ==> !units_view(inv.start_restricted@).contains(s)
}

/// The leading consonant group drawn at `pos` on a replay tape, with the
/// position after it.
pub open spec fn spec_lead(
    inv: LetterInventory,
    is_word_start: bool,
    values: Seq<usize>,
    pos: int,
) -> (Seq<char>, int) {
    if is_word_start && inv.cluster_starts@.len() > 0 {
        (
            units_view(inv.cluster_starts@)[replay_pick(
                values,
                pos,
                inv.cluster_starts@.len() as int,
            )],
            replay_step(values, pos),
        )
    } else {
        (
            seq![inv.consonants@[replay_pick(values, pos, inv.consonants@.len() as int)]],
            replay_step(values, pos),
        )
    }
}

/// The vowel drawn at `pos` on a replay tape.
pub open spec fn spec_vowel(inv: LetterInventory, values: Seq<usize>, pos: int) -> char {
    inv.vowels@[replay_pick(values, pos, inv.vowels@.len() as int)]
}

/// The consonant drawn at `pos` on a replay tape.
pub open spec fn spec_consonant(inv: LetterInventory, values: Seq<usize>, pos: int) -> char {
    inv.consonants@[replay_pick(values, pos, inv.consonants@.len() as int)]
}

/// The letter-based syllable drawn at `pos` on a replay tape: one pattern
/// draw (0 lead-vowel, 1 vowel-consonant, 2 lead-vowel-consonant), then one
/// draw per slot, with the position after them.
pub open spec fn spec_letter_syllable(
    inv: LetterInventory,
    is_word_start: bool,
    values: Seq<usize>,
    pos: int,
) -> (Seq<char>, int) {
    let pat = replay_pick(values, pos, 3);
    let p1 = replay_step(values, pos);
    if pat == 0 {
        let lead = spec_lead(inv, is_word_start, values, p1);
        (lead.0.push(spec_vowel(inv, values, lead.1)), replay_step(values, lead.1))
    } else if pat == 1 {
        let v = spec_vowel(inv, values, p1);
        let p2 = replay_step(values, p1);
        (seq![v, spec_consonant(inv, values, p2)], replay_step(values, p2))
    } else {
        let lead = spec_lead(inv, is_word_start, values, p1);
        let v = spec_vowel(inv, values, lead.1);
        let p3 = replay_step(values, lead.1);
        (lead.0.push(v).push(spec_consonant(inv, values, p3)), replay_step(values, p3))
    }
}

/// The unit-based syllable drawn at `pos` on a replay tape: one draw over the
/// start-eligible units at the start of a word, over the full catalog
/// elsewhere.
pub open spec fn spec_unit_syllable(
    inv: UnitInventory,
    is_word_start: bool,
    values: Seq<usize>,
    pos: int,
) -> (Seq<char>, int) {
    if is_word_start {
        (
            units_view(inv.start_eligible@)[replay_pick(
                values,
                pos,
                inv.start_eligible@.len() as int,
            )],
            replay_step(values, pos),
        )
    } else {
        (
            units_view(inv.units@)[replay_pick(values, pos, inv.units@.len() as int)],
            replay_step(values, pos),
        )
    }
}

/// A word model: a letter-based or a unit-based inventory, offering the same
/// synthesis operations.
#[derive(Debug)]
pub enum WordModel {
    Letter(LetterInventory),
    Unit(UnitInventory),
}

/// Whether `s` is a syllable the model can produce at the given position.
pub open spec fn is_syllable(model: WordModel, is_word_start: bool, s: Seq<char>) -> bool {
    match model {
        WordModel::Letter(inv) => is_letter_syllable(inv, is_word_start, s),
        WordModel::Unit(inv) => is_unit_syllable(inv, is_word_start, s),
    }
}

/// The syllable drawn at `pos` on a replay tape, with the position after it.
pub open spec fn spec_syllable(
    model: WordModel,
    is_word_start: bool,
    values: Seq<usize>,
    pos: int,
) -> (Seq<char>, int) {
    match model {
        WordModel::Letter(inv) => spec_letter_syllable(inv, is_word_start, values, pos),
        WordModel::Unit(inv) => spec_unit_syllable(inv, is_word_start, values, pos),
    }
}

/// Whether the model draws a per-word coin flip deciding if the first
/// syllable is cluster-eligible: only cluster-aware letter models do.
pub open spec fn has_cluster_flip(model: WordModel) -> bool {
    match model {
        WordModel::Letter(inv) => inv.cluster_starts@.len() > 0,
        WordModel::Unit(_) => false,
    }
}

/// The `n` syllables drawn in order from `pos` on a replay tape,
/// concatenated, with the position after them; only the first syllable may be
/// at word-initial position.
pub open spec fn spec_syllables(
    model: WordModel,
    first_is_start: bool,
    n: int,
    values: Seq<usize>,
    pos: int,
) -> (Seq<char>, int)
    decreases n,
{
    if n <= 0 {
        (Seq::empty(), pos)
    } else {
        let first = spec_syllable(model, first_is_start, values, pos);
        let rest = spec_syllables(model, false, n - 1, values, first.1);
        (first.0 + rest.0, rest.1)
    }
}

/// The whole word drawn from `pos` on a replay tape: the syllable count from
/// `[min, max]`, then, in a cluster-aware letter model, the per-word coin
/// flip, then the syllables.
pub open spec fn spec_word(
    model: WordModel,
    min: int,
    max: int,
    values: Seq<usize>,
    pos: int,
) -> (Seq<char>, int) {
    let n = min + replay_pick(values, pos, max - min + 1);
    let p1 = replay_step(values, pos);
    if has_cluster_flip(model) {
        let first_is_start = replay_pick(values, p1, 2) == 1;
        spec_syllables(model, first_is_start, n, values, replay_step(values, p1))
    } else {
        spec_syllables(model, true, n, values, p1)
    }
}

/// The concatenation of a sequence of syllables, in order.
pub open spec fn concat_syllables(syls: Seq<Seq<char>>) -> Seq<char>
    decreases syls.len(),
{
    if syls.len() == 0 {
        Seq::empty()
    } else {
        concat_syllables(syls.drop_last()) + syls.last()
    }
}

/// Whether `w` is exactly the concatenation of `syls`, where each of `syls`
/// is a syllable the model can produce at its position: the first at
/// word-initial position (or, in a cluster-aware letter model, possibly at
/// non-initial position, per the per-word coin flip), the rest at
/// non-initial positions.
pub open spec fn is_word_of(model: WordModel, syls: Seq<Seq<char>>, w: Seq<char>) -> bool {
    &&& syls.len() >= 1
    &&& (is_syllable(model, true, syls[0]) || (has_cluster_flip(model) && is_syllable(
        model,
        false,
        syls[0],
    )))
    &&& forall|i: int| 1 <= i < syls.len() ==> is_syllable(model, false, syls[i])
    &&& w == concat_syllables(syls)
}

/// Whether `w` is a word the model can produce with a syllable count in
/// `[min, max]`: some such syllable decomposition exists.
pub open spec fn is_valid_word(model: WordModel, min: int, max: int, w: Seq<char>) -> bool {
    exists|syls: Seq<Seq<char>>| is_word_of(model, syls, w) && min <= syls.len() <= max
}

/// Law: a word of the unit-based model never begins with a start-restricted
/// unit: its first syllable is always drawn at word-initial position, where
/// only eligible units are offered.
pub proof fn lemma_unit_first_syllable_unrestricted(
    inv: UnitInventory,
    syls: Seq<Seq<char>>,
    w: Seq<char>,
)
    requires
        is_word_of(WordModel::Unit(inv), syls, w),
    ensures
        !units_view(inv.start_restricted@).contains(syls[0]),
{
}

/// Law: generation is deterministic under fixed randomness. A replaying
/// handle pins every draw, so two syntheses over the same tape, position and
/// parameters describe the same word; `synthesize_word` ensures its result
/// equals this function of its inputs whenever the handle replays.
pub proof fn lemma_word_deterministic(model: WordModel, min: int, max: int, a: Rng, b: Rng)
    requires
        !a.system,
        !b.system,
        a.values@ == b.values@,
        a.pos == b.pos,
    ensures
        spec_word(model, min, max, a.values@, a.pos as int) == spec_word(
            model,
            min,
            max,
            b.values@,
            b.pos as int,
        ),
{
}

impl LetterInventory {
    /// One vowel, drawn uniformly.
    fn pick_vowel(&self, rng: &mut Rng) -> (v: char)
        requires
            self.wf(),
        ensures
            self.vowels@.contains(v),
            rng_frame(*old(rng), *final(rng)),
            !old(rng).system ==> v == spec_vowel(*self, old(rng).values@, old(rng).pos as int)
                && final(rng).pos == replay_step(old(rng).values@, old(rng).pos as int),
    {
        let i = rng.pick(self.vowels.len());
        proof {
            assert(self.vowels@.contains(self.vowels@[i as int]));
        }
        self.vowels[i]
    }

    /// One consonant, drawn uniformly.
    fn pick_consonant(&self, rng: &mut Rng) -> (c: char)
        requires
            self.wf(),
        ensures
            self.consonants@.contains(c),
            rng_frame(*old(rng), *final(rng)),
            !old(rng).system ==> c == spec_consonant(*self, old(rng).values@, old(rng).pos as int)
                && final(rng).pos == replay_step(old(rng).values@, old(rng).pos as int),
    {
        let i = rng.pick(self.consonants.len());
        proof {
            assert(self.consonants@.contains(self.consonants@[i as int]));
        }
        self.consonants[i]
    }

    /// The leading consonant group of a syllable: a cluster-start token drawn
    /// uniformly for a word-initial syllable of a cluster-aware model, a
    /// single consonant otherwise.
    fn pick_lead(&self, is_word_start: bool, rng: &mut Rng) -> (g: Vec<char>)
        requires
            self.wf(),
        ensures
            is_lead_group(*self, is_word_start, g@),
            g@.len() >= 1,
            rng_frame(*old(rng), *final(rng)),
            !old(rng).system ==> (g@, final(rng).pos as int) == spec_lead(
                *self,
                is_word_start,
                old(rng).values@,
                old(rng).pos as int,
            ),
    {
        if is_word_start && self.cluster_starts.len() > 0 {
            let i = rng.pick(self.cluster_starts.len());
            let g = clone_unit(&self.cluster_starts[i]);
            proof {
                assert(units_view(self.cluster_starts@)[i as int] == self.cluster_starts@[i as int]@);
                assert(units_view(self.cluster_starts@).contains(
                    units_view(self.cluster_starts@)[i as int],
                ));
            }
            g
        } else {
            let c = self.pick_consonant(rng);
            let mut g: Vec<char> = Vec::new();
            g.push(c);
            proof {
                assert(g@ =~= seq![c]);
            }
            g
        }
    }

    /// One letter-based syllable: a uniform pattern draw, then one uniform
    /// draw per slot.
    fn synthesize_syllable_chars(&self, is_word_start: bool, rng: &mut Rng) -> (syl: Vec<char>)
        requires
            self.wf(),
        ensures
            is_letter_syllable(*self, is_word_start, syl@),
            syl@.len() >= 1,
            rng_frame(*old(rng), *final(rng)),
            !old(rng).system ==> (syl@, final(rng).pos as int) == spec_letter_syllable(
                *self,
                is_word_start,
                old(rng).values@,
                old(rng).pos as int,
            ),
    {
        let pat = rng.pick(3);
        if pat == 0 {
            let mut g = self.pick_lead(is_word_start, rng);
            let ghost gv = g@;
            let v = self.pick_vowel(rng);
            g.push(v);
            proof {
                assert(g@ == gv.push(v));
            }
            g
        } else if pat == 1 {
            let v = self.pick_vowel(rng);
            let c = self.pick_consonant(rng);
            let mut s: Vec<char> = Vec::new();
            s.push(v);
            s.push(c);
            proof {
                assert(s@ =~= seq![v, c]);
            }
            s
        } else {
            let mut g = self.pick_lead(is_word_start, rng);
            let ghost gv = g@;
            let v = self.pick_vowel(rng);
            let c = self.pick_consonant(rng);
            g.push(v);
            g.push(c);
            proof {
                assert(g@ == gv.push(v).push(c));
            }
            g
        }
    }
}

impl UnitInventory {
    /// One unit-based syllable: a uniform draw over the start-eligible units
    /// at the start of a word, over the full catalog elsewhere.
    fn synthesize_syllable_chars(&self, is_word_start: bool, rng: &mut Rng) -> (syl: Vec<char>)
        requires
            self.wf(),
        ensures
            is_unit_syllable(*self, is_word_start, syl@),
            syl@.len() >= 1,
            rng_frame(*old(rng), *final(rng)),
            !old(rng).system ==> (syl@, final(rng).pos as int) == spec_unit_syllable(
                *self,
                is_word_start,
                old(rng).values@,
                old(rng).pos as int,
            ),
    {
        proof {
            assert(units_view(self.start_eligible@).len() == self.start_eligible@.len());
            assert(units_view(self.units@).len() == self.units@.len());
        }
        if is_word_start {
            let i = rng.pick(self.start_eligible.len());
            let syl = clone_unit(&self.start_eligible[i]);
            proof {
                let ev = units_view(self.start_eligible@);
                assert(ev[i as int] == self.start_eligible@[i as int]@);
                assert(ev.contains(ev[i as int]));
                lemma_eligible_contains(
                    units_view(self.units@),
                    units_view(self.start_restricted@),
                );
                let e = ev[i as int];
                assert(units_view(self.units@).contains(e));
                assert(e.len() >= 1) by {
                    let j = choose|j: int|
                        0 <= j < units_view(self.units@).len() && units_view(self.units@)[j] == e;
                    assert(units_view(self.units@)[j].len() >= 1);
                }
            }
            syl
        } else {
            let i = rng.pick(self.units.len());
            let syl = clone_unit(&self.units[i]);
            proof {
                let uv = units_view(self.units@);
                assert(uv[i as int] == self.units@[i as int]@);
                assert(uv.contains(uv[i as int]));
            }
            syl
        }
    }
}

impl WordModel {
    /// The underlying inventory can generate.
    pub open spec fn wf(&self) -> bool {
        match self {
            WordModel::Letter(inv) => inv.wf(),
            WordModel::Unit(inv) => inv.wf(),
        }
    }

    /// Whether this model draws the per-word cluster coin flip.
    fn has_flip(&self) -> (b: bool)
        ensures
            b == has_cluster_flip(*self),
    {
        match self {
            WordModel::Letter(inv) => inv.cluster_starts.len() > 0,
            WordModel::Unit(_) => false,
        }
    }

    /// One syllable at the given position.
    pub fn synthesize_syllable(&self, is_word_start: bool, rng: &mut Rng) -> (syl: String)
        requires
            self.wf(),
        ensures
            is_syllable(*self, is_word_start, syl@),
            syl@.len() >= 1,
            rng_frame(*old(rng), *final(rng)),
            !old(rng).system ==> (syl@, final(rng).pos as int) == spec_syllable(
                *self,
                is_word_start,
                old(rng).values@,
                old(rng).pos as int,
            ),
    {
        let chars = match self {
            WordModel::Letter(inv) => inv.synthesize_syllable_chars(is_word_start, rng),
            WordModel::Unit(inv) => inv.synthesize_syllable_chars(is_word_start, rng),
        };
        chars_to_string(&chars)
    }

    /// One word: a syllable count drawn uniformly from the closed range
    /// `[min, max]`, then that many syllables concatenated in order, the
    /// first at word-initial position (subject to the per-word cluster coin
    /// flip of cluster-aware letter models). A range with `min == 0` or
    /// `min > max` is a configuration error, raised before anything is drawn.
    #[verifier::loop_isolation(false)]
    pub fn synthesize_word(&self, min: usize, max: usize, rng: &mut Rng) -> (r: Result<
        String,
        ConfigError,
    >)
        requires
            self.wf(),
        ensures
            r is Ok <==> 1 <= min <= max,
            !(1 <= min <= max) ==> r == Err::<String, ConfigError>(
                ConfigError::InvalidSyllableRange,
            ) && *final(rng) == *old(rng),
            rng_frame(*old(rng), *final(rng)),
            r matches Ok(w) ==> is_valid_word(*self, min as int, max as int, w@),
            !old(rng).system ==> (r matches Ok(w) ==> (w@, final(rng).pos as int) == spec_word(
                *self,
                min as int,
                max as int,
                old(rng).values@,
                old(rng).pos as int,
            )),
    {
        if min == 0 || min > max {
            return Err(ConfigError::InvalidSyllableRange);
        }
        let n = rng.pick_in_range(min, max);
        let first_is_start = if self.has_flip() {
            rng.pick(2) == 1
        } else {
            true
        };
        let ghost p0 = rng.pos as int;
        let mut word = String::new();
        let ghost mut syls: Seq<Seq<char>> = Seq::empty();
        let mut j: usize = 0;
        while j < n
            invariant
                j <= n,
                rng_frame(*old(rng), *rng),
                syls.len() == j,
                word@ == concat_syllables(syls),
                j >= 1 ==> (is_syllable(*self, first_is_start, syls[0])),
                !first_is_start ==> has_cluster_flip(*self),
                forall|i: int| 1 <= i < j ==> is_syllable(*self, false, syls[i]),
                !rng.system ==> spec_syllables(
                    *self,
                    first_is_start,
                    n as int,
                    rng.values@,
                    p0,
                ) == (
                    word@ + spec_syllables(
                        *self,
                        if j == 0 {
                            first_is_start
                        } else {
                            false
                        },
                        n - j,
                        rng.values@,
                        rng.pos as int,
                    ).0,
                    spec_syllables(
                        *self,
                        if j == 0 {
                            first_is_start
                        } else {
                            false
                        },
                        n - j,
                        rng.values@,
                        rng.pos as int,
                    ).1,
                ),
            decreases n - j,
        {
            let ghost flag = if j == 0 {
                first_is_start
            } else {
                false
            };
            let ghost pre_pos = rng.pos as int;
            let ghost pre_word = word@;
            let syl = self.synthesize_syllable(j == 0 && first_is_start, rng);
            word.append(syl.as_str());
            proof {
                let pre_syls = syls;
                syls = syls.push(syl@);
                assert(syls.drop_last() =~= pre_syls);
                assert(concat_syllables(syls) == concat_syllables(pre_syls) + syl@);
                if !rng.system {
                    let rest = spec_syllables(
                        *self,
                        false,
                        n - j - 1,
                        rng.values@,
                        rng.pos as int,
                    );
                    assert(spec_syllables(*self, flag, n - j, rng.values@, pre_pos) == (
                        syl@ + rest.0,
                        rest.1,
                    ));
                    assert(pre_word + (syl@ + rest.0) =~= (pre_word + syl@) + rest.0);
                }
            }
            j = j + 1;
        }
        proof {
            if !rng.system {
                assert(word@ + spec_syllables(*self, false, 0, rng.values@, rng.pos as int).0
                    =~= word@);
            }
            assert(is_word_of(*self, syls, word@) && min <= syls.len() <= max);
            assert(is_valid_word(*self, min as int, max as int, word@));
        }
        Ok(word)
    }

    /// A batch: `count` words synthesized in order, all from the same
    /// syllable-count range. The range is validated first: on a bad range the
    /// error is returned before any word is generated.
    #[verifier::loop_isolation(false)]
    pub fn synthesize_words(&self, count: usize, min: usize, max: usize, rng: &mut Rng) -> (r:
        Result<Vec<String>, ConfigError>)
        requires
            self.wf(),
        ensures
            r is Ok <==> 1 <= min <= max,
            !(1 <= min <= max) ==> r == Err::<Vec<String>, ConfigError>(
                ConfigError::InvalidSyllableRange,
            ) && *final(rng) == *old(rng),
            rng_frame(*old(rng), *final(rng)),
            r matches Ok(ws) ==> ws@.len() == count && forall|k: int|
                #![trigger ws@[k]]
                0 <= k < count ==> is_valid_word(*self, min as int, max as int, ws@[k]@),
    {
        if min == 0 || min > max {
            return Err(ConfigError::InvalidSyllableRange);
        }
        let mut ws: Vec<String> = Vec::new();
        let mut j: usize = 0;
        while j < count
            invariant
                j <= count,
                ws@.len() == j,
                rng_frame(*old(rng), *rng),
                forall|k: int|
                    #![trigger ws@[k]]
                    0 <= k < j ==> is_valid_word(*self, min as int, max as int, ws@[k]@),
            decreases count - j,
        {
            let ghost pre_ws = ws@;
            match self.synthesize_word(min, max, rng) {
                Ok(w) => {
                    let ghost wv = w@;
                    ws.push(w);
                    proof {
                        assert forall|k: int| #![trigger ws@[k]] 0 <= k < j + 1 implies is_valid_word(
                            *self,
                            min as int,
                            max as int,
                            ws@[k]@,
                        ) by {
                            if k < j {
                                assert(ws@[k] == pre_ws[k]);
                            } else {
                                assert(ws@[k]@ == wv);
                            }
                        }
                    }
                },
                Err(_) => {
                    return Err(ConfigError::InvalidSyllableRange);
                },
            }
            j = j + 1;
        }
        Ok(ws)
    }
}

} // verus!
