//! An injectable randomness handle.
//!
//! A `Rng` either draws from the process-wide generator of the rand crate, or
//! replays a tape of pre-chosen values. Replay draws are fully specified, so
//! everything built on a replaying handle is a mathematical function of the
//! tape: that is what makes generation reproducible and its determinism
//! provable.

use vstd::prelude::*;

verus! {

/// What a replay draw over `0..n` yields: the tape value at `pos` reduced
/// modulo `n`, or `0` once the tape is exhausted.
pub open spec fn replay_pick(values: Seq<usize>, pos: int, n: int) -> int
    recommends
        n >= 1,
{
    if 0 <= pos < values.len() {
        (values[pos] as int) % n
    } else {
        0
    }
}

/// Where the replay position stands after one draw: advanced while the tape
/// lasts, unchanged once it is exhausted.
pub open spec fn replay_step(values: Seq<usize>, pos: int) -> int {
    if 0 <= pos < values.len() {
        pos + 1
    } else {
        pos
    }
}

/// Relies on rand's `rng()` and `Rng::random_range`: a draw from the
/// thread-local generator over `0..n`, which rand documents as a value of
/// that range; the range is non-empty, so the call does not panic.
#[verifier::external_body]
fn thread_pick(n: usize) -> (r: usize)
    requires
        n >= 1,
    ensures
        r < n,
{
    rand::Rng::random_range(&mut rand::rng(), 0..n)
}

/// A source of random draws, either the system generator or a replay tape.
pub struct Rng {
    /// True: draws come from the thread-local system generator.
    pub system: bool,
    /// The replay tape, consulted only when `system` is false.
    pub values: Vec<usize>,
    /// The next tape position.
    pub pos: usize,
}

impl Rng {
    /// A handle on the system generator.
    pub fn from_system() -> (r: Rng)
        ensures
            r.system,
    {
        Rng { system: true, values: Vec::new(), pos: 0 }
    }

    /// A replaying handle: draws are taken from `values` in order.
    pub fn from_values(values: Vec<usize>) -> (r: Rng)
        ensures
            !r.system,
            r.values == values,
            r.pos == 0,
    {
        Rng { system: false, values, pos: 0 }
    }

    /// Choose one of `n`: a draw over `0..n`.
    pub fn pick(&mut self, n: usize) -> (r: usize)
        requires
            n >= 1,
        ensures
            r < n,
            final(self).system == old(self).system,
            final(self).values == old(self).values,
            old(self).system ==> final(self).pos == old(self).pos,
            !old(self).system ==> r == replay_pick(
                old(self).values@,
                old(self).pos as int,
                n as int,
            ) && final(self).pos == replay_step(old(self).values@, old(self).pos as int),
    {
        if self.system {
            thread_pick(n)
        } else if self.pos < self.values.len() {
            let r = self.values[self.pos] % n;
            self.pos = self.pos + 1;
            r
        } else {
            0
        }
    }

    /// An integer drawn from the closed range `[lo, hi]`.
    pub fn pick_in_range(&mut self, lo: usize, hi: usize) -> (r: usize)
        requires
            lo <= hi,
            hi - lo < usize::MAX,
        ensures
            lo <= r <= hi,
            final(self).system == old(self).system,
            final(self).values == old(self).values,
            old(self).system ==> final(self).pos == old(self).pos,
            !old(self).system ==> r == lo + replay_pick(
                old(self).values@,
                old(self).pos as int,
                (hi - lo + 1) as int,
            ) && final(self).pos == replay_step(old(self).values@, old(self).pos as int),
    {
        let d = self.pick(hi - lo + 1);
        lo + d
    }
}

} // verus!
