//! The word analyzer: classifies words by typing-ergonomics predicates over
//! adjacent character pairs.
//!
//! A word is accepted exactly when every adjacent pair satisfies the
//! predicate combination the caller's flags select: hand-balance alone,
//! smoothness alone, their disjunction when both flags are set, and no
//! constraint at all when neither is. The batch analyzer maps each distinct
//! word of a batch to its verdict; it is a pure function of its inputs, so
//! analyzing the same batch twice yields the same mapping.

use vstd::prelude::*;
use vstd::string::StrSliceExecFns;

use crate::inventory::lemma_contains_split;
use crate::text::{str_to_vec, words_view};

verus! {

/// Whether `c` sits under the left hand on a standard keyboard.
pub open spec fn spec_left_hand(c: char) -> bool {
    c == 'q' || c == 'w' || c == 'e' || c == 'r' || c == 't' || c == 'a' || c == 's' || c == 'd'
        || c == 'f' || c == 'g' || c == 'z' || c == 'x' || c == 'c' || c == 'v' || c == 'b'
}

/// Whether `c` sits under the right hand on a standard keyboard.
pub open spec fn spec_right_hand(c: char) -> bool {
    c == 'y' || c == 'u' || c == 'i' || c == 'o' || c == 'p' || c == 'h' || c == 'j' || c == 'k'
        || c == 'l' || c == 'n' || c == 'm'
}

/// Whether the pair alternates hands: one character under each hand, in
/// either order. Characters under neither hand balance with nothing.
pub open spec fn spec_hand_optimized(a: char, b: char) -> bool {
    (spec_left_hand(a) && spec_right_hand(b)) || (spec_right_hand(a) && spec_left_hand(b))
}

/// Whether the pair is phonetically smooth. Not yet supported: the
/// predicate holds of no pair.
pub open spec fn spec_smooth_optimized(a: char, b: char) -> bool {
    false
}

/// Whether one adjacent pair satisfies the combination the flags select:
/// both flags mean hand-balance or smoothness suffices; one flag means that
/// predicate alone; no flags means no constraint.
pub open spec fn spec_pair_ok(a: char, b: char, hand: bool, smooth: bool) -> bool {
    if hand && smooth {
        spec_hand_optimized(a, b) || spec_smooth_optimized(a, b)
    } else if hand {
        spec_hand_optimized(a, b)
    } else if smooth {
        spec_smooth_optimized(a, b)
    } else {
        true
    }
}

/// Whether a word is accepted: every adjacent pair, left to right, satisfies
/// the selected combination.
pub open spec fn spec_word_accepted(w: Seq<char>, hand: bool, smooth: bool) -> bool {
    forall|i: int|
        0 <= i < w.len() - 1 ==> #[trigger] spec_pair_ok(w[i], w[i + 1], hand, smooth)
}

/// The verdict mapping of a batch: each word of the batch maps to its
/// verdict; duplicate words collapse onto one key.
pub open spec fn spec_analyze_batch(words: Seq<Seq<char>>, hand: bool, smooth: bool) -> Map<
    Seq<char>,
    bool,
> {
    Map::new(
        |w: Seq<char>| words.contains(w),
        |w: Seq<char>| spec_word_accepted(w, hand, smooth),
    )
}

/// Law: a single-character word is accepted whatever the flags: it has no
/// adjacent pair to violate any predicate.
pub proof fn lemma_single_char_accepted(w: Seq<char>, hand: bool, smooth: bool)
    requires
        w.len() == 1,
    ensures
        spec_word_accepted(w, hand, smooth),
{
}

/// Law: with neither flag set, every word is accepted.
pub proof fn lemma_no_flags_accepted(w: Seq<char>)
    ensures
        spec_word_accepted(w, false, false),
{
}

/// Whether `c` sits under the left hand.
pub fn is_left_hand(c: char) -> (r: bool)
    ensures
        r == spec_left_hand(c),
{
    match c {
        'q' | 'w' | 'e' | 'r' | 't' | 'a' | 's' | 'd' | 'f' | 'g' | 'z' | 'x' | 'c' | 'v'
            | 'b' => true,
        _ => false,
    }
}

/// Whether `c` sits under the right hand.
pub fn is_right_hand(c: char) -> (r: bool)
    ensures
        r == spec_right_hand(c),
{
    match c {
        'y' | 'u' | 'i' | 'o' | 'p' | 'h' | 'j' | 'k' | 'l' | 'n' | 'm' => true,
        _ => false,
    }
}

/// The verdicts of one batch analysis: an association from each analyzed
/// word to its verdict, with no word occurring twice. Views as the mapping
/// it denotes; no order among the entries is promised.
pub struct AnalysisResult {
    /// Word/verdict pairs, keys unique.
    pub entries: Vec<(String, bool)>,
}

/// The mapping an entry list denotes, later entries winning (the analyzer
/// keeps keys unique, so nothing is ever overridden).
pub open spec fn entries_map(entries: Seq<(String, bool)>) -> Map<Seq<char>, bool>
    decreases entries.len(),
{
    if entries.len() == 0 {
        Map::empty()
    } else {
        entries_map(entries.drop_last()).insert(entries.last().0@, entries.last().1)
    }
}

impl View for AnalysisResult {
    type V = Map<Seq<char>, bool>;

    open spec fn view(&self) -> Map<Seq<char>, bool> {
        entries_map(self.entries@)
    }
}

impl AnalysisResult {
    /// No word occurs twice among the entries.
    pub open spec fn wf(&self) -> bool {
        forall|i: int, j: int|
            0 <= i < j < self.entries@.len() ==> self.entries@[i].0@ != self.entries@[j].0@
    }

    /// The verdict recorded for a word, if the word was analyzed.
    pub fn verdict(&self, word: &str) -> (r: Option<bool>)
        requires
            self.wf(),
        ensures
            self@.dom().contains(word@) ==> r == Some(self@[word@]),
            !self@.dom().contains(word@) ==> r is None,
    {
        proof {
            lemma_entries_map(self.entries@);
        }
        let wv = str_to_vec(word);
        let mut i: usize = 0;
        while i < self.entries.len()
            invariant
                i <= self.entries@.len(),
                wv@ == word@,
                forall|k: int| 0 <= k < i ==> self.entries@[k].0@ != word@,
                self.wf(),
                forall|w: Seq<char>|
                    #![trigger entries_map(self.entries@).dom().contains(w)]
                    entries_map(self.entries@).dom().contains(w) <==> (exists|k: int|
                        0 <= k < self.entries@.len() && self.entries@[k].0@ == w),
                forall|k: int|
                    #![trigger self.entries@[k]]
                    0 <= k < self.entries@.len() ==> entries_map(self.entries@).dom().contains(
                        self.entries@[k].0@,
                    ) && entries_map(self.entries@)[self.entries@[k].0@] == self.entries@[k].1,
            decreases self.entries@.len() - i,
        {
            let ev = str_to_vec(self.entries[i].0.as_str());
            if crate::text::chars_eq(&ev, &wv) {
                return Some(self.entries[i].1);
            }
            i = i + 1;
        }
        proof {
            if self@.dom().contains(word@) {
                let k = choose|k: int|
                    0 <= k < self.entries@.len() && self.entries@[k].0@ == word@;
            }
        }
        None
    }
}

/// For an entry list with unique keys, the denoted mapping holds exactly the
/// listed keys, each at its listed verdict.
pub proof fn lemma_entries_map(entries: Seq<(String, bool)>)
    ensures
        forall|w: Seq<char>|
            #![trigger entries_map(entries).dom().contains(w)]
            entries_map(entries).dom().contains(w) <==> (exists|k: int|
                0 <= k < entries.len() && entries[k].0@ == w),
        forall|k: int|
            #![trigger entries[k]]
            0 <= k < entries.len() && (forall|j: int|
                k < j < entries.len() ==> entries[j].0@ != entries[k].0@) ==> entries_map(
                entries,
            ).dom().contains(entries[k].0@) && entries_map(entries)[entries[k].0@] == entries[k].1,
    decreases entries.len(),
{
    if entries.len() == 0 {
    } else {
        let front = entries.drop_last();
        lemma_entries_map(front);
        assert forall|w: Seq<char>|
            #![trigger entries_map(entries).dom().contains(w)]
            entries_map(entries).dom().contains(w) <==> (exists|k: int|
                0 <= k < entries.len() && entries[k].0@ == w) by {
            if entries_map(entries).dom().contains(w) {
                if w == entries.last().0@ {
                    assert(entries[entries.len() - 1].0@ == w);
                } else {
                    assert(entries_map(front).dom().contains(w));
                    let k = choose|k: int| 0 <= k < front.len() && front[k].0@ == w;
                    assert(entries.subrange(0, entries.len() - 1)[k] == entries[k]);
                    assert(entries[k].0@ == w);
                }
            }
            if exists|k: int| 0 <= k < entries.len() && entries[k].0@ == w {
                let k = choose|k: int| 0 <= k < entries.len() && entries[k].0@ == w;
                if k < entries.len() - 1 {
                    assert(entries.subrange(0, entries.len() - 1)[k] == entries[k]);
                    assert(front[k].0@ == w);
                    assert(entries_map(front).dom().contains(w));
                }
            }
        }
        assert forall|k: int|
            #![trigger entries[k]]
            0 <= k < entries.len() && (forall|j: int|
                k < j < entries.len() ==> entries[j].0@ != entries[k].0@) implies entries_map(
            entries,
        ).dom().contains(entries[k].0@) && entries_map(entries)[entries[k].0@]
            == entries[k].1 by {
            if k == entries.len() - 1 {
            } else {
                assert(entries.subrange(0, entries.len() - 1)[k] == entries[k]);
                assert(front[k] == entries[k]);
                assert forall|j: int| k < j < front.len() implies front[j].0@ != front[k].0@ by {
                    assert(entries.subrange(0, entries.len() - 1)[j] == entries[j]);
                }
                assert(entries[entries.len() - 1].0@ != entries[k].0@);
            }
        }
    }
}

/// A batch analyzer: holds the words of one batch and classifies them.
pub struct Analyzer {
    /// The words under analysis.
    pub input: Vec<String>,
}

impl View for Analyzer {
    type V = Seq<Seq<char>>;

    open spec fn view(&self) -> Seq<Seq<char>> {
        words_view(self.input@)
    }
}

impl Analyzer {
    /// Every word of the batch has at least one character (an empty word has
    /// nothing to classify).
    pub open spec fn wf(&self) -> bool {
        forall|i: int| 0 <= i < self@.len() ==> self@[i].len() >= 1
    }

    /// Hold a batch of words for analysis.
    pub fn new(input: Vec<String>) -> (a: Analyzer)
        ensures
            a.input@ == input@,
    {
        Analyzer { input }
    }

    /// Whether one word is accepted under the selected flags: every adjacent
    /// character pair must satisfy the selected predicate combination; the
    /// walk stops at the first failing pair.
    #[verifier::loop_isolation(false)]
    pub fn analyze_word(word: &str, hand: bool, smooth: bool) -> (r: bool)
        requires
            word@.len() >= 1,
        ensures
            r == spec_word_accepted(word@, hand, smooth),
    {
        if !hand && !smooth {
            return true;
        }
        let n = word.unicode_len();
        let mut prev = word.get_char(0);
        let mut i: usize = 1;
        while i < n
            invariant
                1 <= i <= n,
                prev == word@[i - 1],
                forall|k: int|
                    0 <= k < i - 1 ==> #[trigger] spec_pair_ok(word@[k], word@[k + 1], hand, smooth),
            decreases n - i,
        {
            let c = word.get_char(i);
            let ok = if hand && smooth {
                Analyzer::is_hand_optimized(prev, c) || Analyzer::is_smooth_optimized(prev, c)
            } else if hand {
                Analyzer::is_hand_optimized(prev, c)
            } else {
                Analyzer::is_smooth_optimized(prev, c)
            };
            if !ok {
                proof {
                    assert(!spec_pair_ok(word@[i - 1], word@[i - 1 + 1], hand, smooth));
                }
                return false;
            }
            prev = c;
            i = i + 1;
        }
        true
    }

    /// Whether the pair alternates hands.
    pub fn is_hand_optimized(a: char, b: char) -> (r: bool)
        ensures
            r == spec_hand_optimized(a, b),
    {
        (is_left_hand(a) && is_right_hand(b)) || (is_right_hand(a) && is_left_hand(b))
    }

    /// Whether the pair is phonetically smooth: not yet supported, so no
    /// pair is.
    pub fn is_smooth_optimized(a: char, b: char) -> (r: bool)
        ensures
            r == spec_smooth_optimized(a, b),
    {
        false
    }

    /// Classify every word of the batch: the result maps each distinct word
    /// to its verdict. A pure function of the batch and the flags: the same
    /// inputs always denote the same mapping.
    #[verifier::loop_isolation(false)]
    pub fn analyze_batch(&self, hand: bool, smooth: bool) -> (r: AnalysisResult)
        requires
            self.wf(),
        ensures
            r.wf(),
            r@ == spec_analyze_batch(self@, hand, smooth),
    {
        let mut res = AnalysisResult { entries: Vec::new() };
        proof {
            assert(res.entries@.len() == 0);
            assert(res@ =~= spec_analyze_batch(self@.take(0), hand, smooth));
        }
        let mut i: usize = 0;
        while i < self.input.len()
            invariant
                i <= self@.len(),
                res.wf(),
                res@ == spec_analyze_batch(self@.take(i as int), hand, smooth),
            decreases self@.len() - i,
        {
            proof {
                assert(self@[i as int] == self.input@[i as int]@);
            }
            let accepted = Analyzer::analyze_word(self.input[i].as_str(), hand, smooth);
            let ghost pre = res.entries@;
            let word = self.input[i].clone();
            let present = find_key(&res.entries, &word);
            if present {
                proof {
                    lemma_entries_map(res.entries@);
                    assert(res@.dom().contains(self@[i as int]));
                }
            } else {
                res.entries.push((word, accepted));
                proof {
                    assert(res.entries@.drop_last() =~= pre);
                    assert(res@ == entries_map(pre).insert(self@[i as int], accepted));
                }
            }
            proof {
                let prefix = self@.take(i as int);
                let next = self@.take(i + 1);
                assert(next.drop_last() =~= prefix);
                assert(next.last() == self@[i as int]);
                let wi = self@[i as int];
                assert forall|w: Seq<char>|
                    next.contains(w) <==> (prefix.contains(w) || wi == w) by {
                    lemma_contains_split(next, w);
                }
                assert(res@ =~= spec_analyze_batch(next, hand, smooth));
            }
            i = i + 1;
        }
        proof {
            assert(self@.take(self@.len() as int) =~= self@);
        }
        res
    }
}

/// Whether an entry list already holds `word` as a key.
fn find_key(entries: &Vec<(String, bool)>, word: &String) -> (r: bool)
    ensures
        r == (exists|k: int| 0 <= k < entries@.len() && entries@[k].0@ == word@),
{
    let mut i: usize = 0;
    while i < entries.len()
        invariant
            i <= entries@.len(),
            forall|k: int| 0 <= k < i ==> entries@[k].0@ != word@,
        decreases entries@.len() - i,
    {
        if entries[i].0.eq(word) {
            proof {
                assert(entries@[i as int].0@ == word@);
            }
            return true;
        }
        i = i + 1;
    }
    false
}

} // verus!
