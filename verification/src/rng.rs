//! Uniform random fractions for the simulation, in parts per million.
//! Randomness enters the library only here; everything downstream takes the
//! drawn fraction as a plain value and is verified for every value of it.

use vstd::prelude::*;
use crate::world::DRAW_RANGE;

verus! {

/// Relies on rand's `Rng::gen_range` on the thread-local generator: it
/// returns a value within the given half-open range (here [0, DRAW_RANGE))
/// and panics only on an empty range.
#[verifier::external_body]
fn thread_draw() -> (r: u32)
    ensures
        r < DRAW_RANGE,
{
    rand::Rng::gen_range(&mut rand::thread_rng(), 0..DRAW_RANGE)
}

/// Where random fractions come from: the process's generator, or a fixed
/// list replayed in order for deterministic runs (past its end the list
/// reads as zero).
pub struct DrawSource {
    pub system: bool,
    pub draws: Vec<u32>,
    pub next: usize,
}

impl DrawSource {
    pub open spec fn wf(&self) -> bool {
        &&& forall|i: int| 0 <= i < self.draws@.len() ==> self.draws@[i] < DRAW_RANGE
        &&& self.next <= self.draws@.len()
    }

    /// The process's own generator.
    pub fn system() -> (s: DrawSource)
        ensures
            s.wf(),
            s.system,
    {
        DrawSource { system: true, draws: Vec::new(), next: 0 }
    }

    /// A deterministic source replaying the given fractions, each taken
    /// modulo the draw range.
    pub fn fixed(draws: Vec<u32>) -> (s: DrawSource)
        ensures
            s.wf(),
            !s.system,
            s.next == 0,
            s.draws@.len() == draws@.len(),
            forall|i: int| 0 <= i < draws@.len() ==> s.draws@[i] == draws@[i] % DRAW_RANGE,
    {
        let mut reduced: Vec<u32> = Vec::new();
        let mut i: usize = 0;
        while i < draws.len()
            invariant
                0 <= i <= draws@.len(),
                reduced@.len() == i,
                forall|j: int| 0 <= j < i ==> reduced@[j] == draws@[j] % DRAW_RANGE,
            decreases draws@.len() - i,
        {
            let d = draws[i] % DRAW_RANGE;
            reduced.push(d);
            i = i + 1;
        }
        DrawSource { system: false, draws: reduced, next: 0 }
    }

    /// The next fraction: nondeterministic from the system generator, the
    /// next listed value (or zero past the end) from a fixed source.
    pub fn next_draw(&mut self) -> (r: u32)
        requires
            old(self).wf(),
        ensures
            final(self).wf(),
            r < DRAW_RANGE,
            final(self).system == old(self).system,
            final(self).draws == old(self).draws,
            old(self).system ==> final(self).next == old(self).next,
            !old(self).system ==> {
                &&& if old(self).next < old(self).draws@.len() {
                    r == old(self).draws@[old(self).next as int] && final(self).next == old(
                        self,
                    ).next + 1
                } else {
                    r == 0 && final(self).next == old(self).next
                }
            },
    {
        if self.system {
            thread_draw()
        } else {
            if self.next < self.draws.len() {
                let r = self.draws[self.next];
                self.next = self.next + 1;
                r
            } else {
                0
            }
        }
    }
}

} // verus!
